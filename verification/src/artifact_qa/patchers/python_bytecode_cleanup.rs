//! Which staged files are Python bytecode, build leftovers or pip metadata:
//! they are regenerated at run time and do not belong in a package.
use crate::paths::{extension, extension_of, file_name, file_name_of};
use crate::text::{contains, contains_str, ends_with, ends_with_str, eq_str, starts_with, starts_with_str};
use vstd::prelude::*;

verus! {

/// Removes Python bytecode caches and build leftovers.
pub struct PythonBytecodeCleanupPatcher;

/// ASCII case folding of one character.
pub open spec fn ascii_lower(c: char) -> char {
    if 'A' <= c && c <= 'Z' {
        ((c as u32) + 32) as char
    } else {
        c
    }
}

/// `s.eq_ignore_ascii_case(t)` for a lower-case `t`.
pub open spec fn eq_ignore_case(s: Seq<char>, t: Seq<char>) -> bool {
    s.len() == t.len() && forall|i: int| 0 <= i < s.len() ==> ascii_lower(#[trigger] s[i]) == t[i]
}

/// A bytecode file: extension `pyc` or `pyo`, or an extension `pyc` in any
/// case on a tagged name (`.cpython-`, `.pypy`, `.opt-`).
pub open spec fn is_bytecode(p: Seq<char>) -> bool {
    (extension_of(p) == Some("pyc"@) || extension_of(p) == Some("pyo"@)) || (extension_of(p) matches Some(e)
        && eq_ignore_case(e, "pyc"@) && (file_name_of(p) matches Some(n) && (contains(n, ".cpython-"@)
        || contains(n, ".pypy"@) || contains(n, ".opt-"@))))
}

/// A build or development leftover, by its name.
pub open spec fn is_build_artifact(name: Seq<char>) -> bool {
    name == "build"@ || name == "dist"@ || name == ".eggs"@ || name == ".tox"@ || name == ".pytest_cache"@
        || name == ".mypy_cache"@ || name == ".ruff_cache"@ || name == "htmlcov"@ || name == ".DS_Store"@
        || name == "Thumbs.db"@ || name == ".vscode"@ || name == ".idea"@ || ends_with(name, ".egg-info"@)
        || starts_with(name, "pip-build-env-"@) || starts_with(name, "pip-req-build-"@)
}

/// Pip installation metadata that holds hard-coded paths.
pub open spec fn is_pip_metadata(name: Seq<char>) -> bool {
    name == "INSTALLER"@ || name == "REQUESTED"@ || name == "direct_url.json"@
}

/// ASCII case folding of one character.
pub fn ascii_lower_char(c: char) -> (r: char)
    ensures
        r == ascii_lower(c),
{
    if 'A' <= c && c <= 'Z' {
        let r = ((c as u32) + 32) as u8 as char;
        assert(r == ((c as u32) + 32) as char);
        r
    } else {
        c
    }
}

fn eq_ignore_case_exec(s: &[char], t: &str) -> (r: bool)
    requires
        forall|i: int| 0 <= i < t@.len() ==> !('A' <= #[trigger] t@[i] && t@[i] <= 'Z'),
    ensures
        r == eq_ignore_case(s@, t@),
{
    let tv = crate::text::to_chars(t);
    if s.len() != tv.len() {
        return false;
    }
    for i in 0..s.len()
        invariant
            tv@ == t@,
            s@.len() == tv@.len(),
            forall|j: int| 0 <= j < i ==> ascii_lower(#[trigger] s@[j]) == tv@[j],
    {
        let c = s[i];
        let lc = ascii_lower_char(c);
        if lc != tv[i] {
            return false;
        }
    }
    true
}

impl PythonBytecodeCleanupPatcher {
    /// A `__pycache__` directory, removed whole.
    pub fn is_pycache_dir(path: &str) -> (r: bool)
        ensures
            r == (file_name_of(path@) == Some("__pycache__"@)),
    {
        match file_name(path) {
            Some(n) => eq_str(n.as_slice(), "__pycache__"),
            None => false,
        }
    }

    /// A bytecode file, removed.
    pub fn is_bytecode_file(path: &str) -> (r: bool)
        ensures
            r == is_bytecode(path@),
    {
        match extension(path) {
            Some(e) => {
                if eq_str(e.as_slice(), "pyc") || eq_str(e.as_slice(), "pyo") {
                    return true;
                }
                proof {
                    reveal_strlit("pyc");
                }
                if !eq_ignore_case_exec(e.as_slice(), "pyc") {
                    return false;
                }
                match file_name(path) {
                    Some(n) => contains_str(n.as_slice(), ".cpython-") || contains_str(n.as_slice(), ".pypy")
                        || contains_str(n.as_slice(), ".opt-"),
                    None => false,
                }
            },
            None => false,
        }
    }

    /// A build or development leftover, removed.
    pub fn is_build_artifact(path: &str) -> (r: bool)
        ensures
            r == (file_name_of(path@) matches Some(n) && is_build_artifact(n)),
    {
        match file_name(path) {
            Some(n) => {
                let n = n.as_slice();
                eq_str(n, "build") || eq_str(n, "dist") || eq_str(n, ".eggs") || eq_str(n, ".tox") || eq_str(
                    n,
                    ".pytest_cache",
                ) || eq_str(n, ".mypy_cache") || eq_str(n, ".ruff_cache") || eq_str(n, "htmlcov") || eq_str(
                    n,
                    ".DS_Store",
                ) || eq_str(n, "Thumbs.db") || eq_str(n, ".vscode") || eq_str(n, ".idea") || ends_with_str(
                    n,
                    ".egg-info",
                ) || starts_with_str(n, "pip-build-env-") || starts_with_str(n, "pip-req-build-")
            },
            None => false,
        }
    }

    /// Pip metadata with hard-coded paths, removed.
    pub fn is_pip_artifact(path: &str) -> (r: bool)
        ensures
            r == (file_name_of(path@) matches Some(n) && is_pip_metadata(n)),
    {
        match file_name(path) {
            Some(n) => eq_str(n.as_slice(), "INSTALLER") || eq_str(n.as_slice(), "REQUESTED") || eq_str(
                n.as_slice(),
                "direct_url.json",
            ),
            None => false,
        }
    }
}

} // verus!
