//! Which staged files need execute permissions, and the mode that grants them.
use crate::paths::{components, extension, extension_of, file_name, file_name_of, path_components};
use crate::text::{contains, contains_str, eq_str, views};
use vstd::prelude::*;

verus! {

/// Ensures binaries and dynamic libraries have execute permissions.
pub struct PermissionsFixer {
    aggressive: bool,
}

impl Default for PermissionsFixer {
    fn default() -> (r: Self)
        ensures
            !r.is_aggressive(),
    {
        PermissionsFixer { aggressive: false }
    }
}

/// The file name marks a dynamic library (`.dylib`, `.so`, also versioned).
pub open spec fn is_dynamic_library_name(p: Seq<char>) -> bool {
    match file_name_of(p) {
        Some(n) => contains(n, ".dylib"@) || contains(n, ".so"@),
        None => false,
    }
}

/// What the directories above a file decide, looking from the nearest one
/// (index `k` of the components) up: `bin` or `sbin` make it executable,
/// `libexec` only when it is Mach-O, and `release` or `debug` under
/// `target` or `.build` make it executable; `None` where none decides.
pub open spec fn ancestor_decision(cs: Seq<Seq<char>>, k: int, is_macho: bool) -> Option<bool>
    decreases k + 1,
{
    if k < 0 {
        None
    } else {
        let d = cs[k];
        if d == ".."@ {
            ancestor_decision(cs, k - 1, is_macho)
        } else if d == "bin"@ || d == "sbin"@ {
            Some(true)
        } else if d == "libexec"@ {
            Some(is_macho)
        } else if (d == "release"@ || d == "debug"@) && k >= 1 && (cs[k - 1] == ".build"@ || cs[k - 1] == "target"@) {
            Some(true)
        } else {
            ancestor_decision(cs, k - 1, is_macho)
        }
    }
}

/// An extension of a common script language.
pub open spec fn is_script_extension(e: Seq<char>) -> bool {
    e == "sh"@ || e == "bash"@ || e == "zsh"@ || e == "fish"@ || e == "py"@ || e == "pl"@ || e == "rb"@
        || e == "lua"@
}

/// The aggressive rule: dynamic libraries; files under an executable
/// directory (see `ancestor_decision`); else scripts with a shebang, Mach-O
/// files, and files with a script extension.
pub open spec fn needs_exec_aggressive(p: Seq<char>, has_shebang: bool, is_macho: bool) -> bool {
    if is_dynamic_library_name(p) {
        true
    } else {
        match ancestor_decision(path_components(p), path_components(p).len() - 2, is_macho) {
            Some(b) => b,
            None => has_shebang || is_macho || (extension_of(p) matches Some(e) && is_script_extension(e)),
        }
    }
}

/// The mode that adds an execute bit for each read bit, or `None` where some
/// execute bit is already set.
pub open spec fn executable_mode(mode: u32) -> Option<u32> {
    if mode & 0o111u32 != 0 {
        None
    } else {
        Some(mode | ((mode & 0o444u32) >> 2u32))
    }
}

impl PermissionsFixer {
    /// Create a new permissions fixer
    pub fn new(aggressive: bool) -> (r: Self)
        ensures
            r.is_aggressive() == aggressive,
    {
        PermissionsFixer { aggressive }
    }

    /// Whether this fixer uses the aggressive rule.
    pub closed spec fn is_aggressive(&self) -> bool {
        self.aggressive
    }

    /// Check if a file is a dynamic library that needs execute permissions
    pub fn is_dynamic_library(path: &str) -> (r: bool)
        ensures
            r == is_dynamic_library_name(path@),
    {
        match file_name(path) {
            Some(n) => contains_str(n.as_slice(), ".dylib") || contains_str(n.as_slice(), ".so"),
            None => false,
        }
    }

    /// Check if file needs execute permissions (conservative default mode):
    /// dynamic libraries and Mach-O files (`is_macho`, read from the file).
    pub fn needs_execute_permission(path: &str, is_macho: bool) -> (r: bool)
        ensures
            r == (is_dynamic_library_name(path@) || is_macho),
    {
        Self::is_dynamic_library(path) || is_macho
    }

    /// Check if file needs execute permissions (aggressive mode for explicit
    /// calls), from its location and name and from what was read of it: a
    /// shebang as the first line, and whether it is a Mach-O file.
    pub fn needs_execute_permission_aggressive(path: &str, has_shebang: bool, is_macho: bool) -> (r: bool)
        ensures
            r == needs_exec_aggressive(path@, has_shebang, is_macho),
    {
        if Self::is_dynamic_library(path) {
            return true;
        }
        let cs = components(path);
        let n = cs.len();
        let mut idx: usize = if n >= 1 { n - 1 } else { 0 };
        // `idx` is one past the ancestor being looked at.
        while idx > 0
            invariant
                views(cs@) == path_components(path@),
                !is_dynamic_library_name(path@),
                n == cs@.len(),
                idx <= n,
                n >= 1 ==> idx <= n - 1,
                ancestor_decision(views(cs@), views(cs@).len() - 2, is_macho)
                    == ancestor_decision(views(cs@), idx - 1, is_macho),
            decreases idx,
        {
            let j = idx - 1;
            let d = cs[j].as_slice();
            if eq_str(d, "..") {
            } else if eq_str(d, "bin") || eq_str(d, "sbin") {
                return true;
            } else if eq_str(d, "libexec") {
                return is_macho;
            } else if (eq_str(d, "release") || eq_str(d, "debug")) && j >= 1 && (eq_str(cs[j - 1].as_slice(), ".build")
                || eq_str(cs[j - 1].as_slice(), "target")) {
                return true;
            }
            idx = j;
        }
        if has_shebang || is_macho {
            return true;
        }
        match extension(path) {
            Some(e) => {
                let e = e.as_slice();
                eq_str(e, "sh") || eq_str(e, "bash") || eq_str(e, "zsh") || eq_str(e, "fish") || eq_str(e, "py")
                    || eq_str(e, "pl") || eq_str(e, "rb") || eq_str(e, "lua")
            },
            None => false,
        }
    }

    /// Whether this fixer changes a file, by its mode's rule.
    pub fn needs_fix(&self, path: &str, has_shebang: bool, is_macho: bool) -> (r: bool)
        ensures
            r == if self.is_aggressive() {
                needs_exec_aggressive(path@, has_shebang, is_macho)
            } else {
                is_dynamic_library_name(path@) || is_macho
            },
    {
        if self.aggressive {
            Self::needs_execute_permission_aggressive(path, has_shebang, is_macho)
        } else {
            Self::needs_execute_permission(path, is_macho)
        }
    }

    /// The permission bits a file gets: an execute bit for each read bit,
    /// unless it already has an execute bit (`None`: nothing to change).
    pub fn fixed_mode(mode: u32) -> (r: Option<u32>)
        ensures
            r == executable_mode(mode),
    {
        if mode & 0o111 != 0 {
            None
        } else {
            Some(mode | ((mode & 0o444) >> 2))
        }
    }
}

/// A fixed mode keeps every bit that was set, and gives execute permission to
/// each class (owner, group, others) that may read.
pub proof fn lemma_executable_mode(mode: u32)
    ensures
        executable_mode(mode) matches Some(m) ==> {
            &&& m & mode == mode
            &&& (mode & 0o400u32 != 0 ==> m & 0o100u32 != 0)
            &&& (mode & 0o040u32 != 0 ==> m & 0o010u32 != 0)
            &&& (mode & 0o004u32 != 0 ==> m & 0o001u32 != 0)
        },
{
    let m = mode | ((mode & 0o444u32) >> 2u32);
    assert(m & mode == mode) by (bit_vector)
        requires
            m == mode | ((mode & 0o444u32) >> 2u32),
    ;
    assert(mode & 0o400u32 != 0 ==> m & 0o100u32 != 0) by (bit_vector)
        requires
            m == mode | ((mode & 0o444u32) >> 2u32),
    ;
    assert(mode & 0o040u32 != 0 ==> m & 0o010u32 != 0) by (bit_vector)
        requires
            m == mode | ((mode & 0o444u32) >> 2u32),
    ;
    assert(mode & 0o004u32 != 0 ==> m & 0o001u32 != 0) by (bit_vector)
        requires
            m == mode | ((mode & 0o444u32) >> 2u32),
    ;
}

/// Fixing a mode a second time changes nothing: the fixed mode is either
/// left alone (it has an execute bit) or fixed to itself (nothing could be
/// read, so nothing was added).
pub proof fn lemma_fix_idempotent(mode: u32)
    ensures
        executable_mode(mode) matches Some(m) ==> (executable_mode(m) is None || executable_mode(m) == Some(m)),
{
    let m = mode | ((mode & 0o444u32) >> 2u32);
    assert(m & 0o111u32 != 0 || (m | ((m & 0o444u32) >> 2u32)) == m) by (bit_vector)
        requires
            m == mode | ((mode & 0o444u32) >> 2u32),
    ;
}

} // verus!
