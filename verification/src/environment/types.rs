//! Types and result structures for the build environment.
use crate::text::{eq_str, owned, to_chars, trim_exec, trim};
use crate::compression::ascii_lowercase;
use vstd::prelude::*;

verus! {

/// Result of executing a build command
#[derive(Debug)]
pub struct BuildCommandResult {
    /// Whether the command succeeded
    pub success: bool,
    /// Exit code
    pub exit_code: Option<i32>,
    /// Standard output
    pub stdout: String,
    /// Standard error
    pub stderr: String,
}

/// Result of the build process
#[derive(Debug, Clone)]
pub struct BuildResult {
    /// Path to the generated package file
    pub package_path: String,
    /// SBOM files generated
    pub sbom_files: Vec<String>,
    /// Build log
    pub build_log: String,
    /// Whether the recipe requested the package be installed after building
    pub install_requested: bool,
}

impl BuildResult {
    /// Create new build result
    pub fn new(package_path: String) -> (r: Self)
        ensures
            r.package_path == package_path,
            r.sbom_files@.len() == 0,
            r.build_log@.len() == 0,
            !r.install_requested,
    {
        BuildResult { package_path, sbom_files: Vec::new(), build_log: String::new(), install_requested: false }
    }

    /// Add SBOM file
    pub fn add_sbom_file(&mut self, path: String)
        ensures
            final(self).sbom_files@ == old(self).sbom_files@.push(path),
            final(self).package_path == old(self).package_path,
            final(self).build_log == old(self).build_log,
            final(self).install_requested == old(self).install_requested,
    {
        self.sbom_files.push(path);
    }

    /// Set build log
    pub fn set_build_log(&mut self, log: String)
        ensures
            final(self).build_log == log,
            final(self).package_path == old(self).package_path,
            final(self).sbom_files == old(self).sbom_files,
            final(self).install_requested == old(self).install_requested,
    {
        self.build_log = log;
    }

    /// Set install requested flag
    pub fn with_install_requested(self, install_requested: bool) -> (r: Self)
        ensures
            r.install_requested == install_requested,
            r.package_path == self.package_path,
            r.sbom_files == self.sbom_files,
            r.build_log == self.build_log,
    {
        let mut s = self;
        s.install_requested = install_requested;
        s
    }
}

/// Build isolation level
#[derive(Debug, Clone, Copy, PartialEq, Eq, Structural)]
pub enum IsolationLevel {
    /// No isolation - uses host environment as-is (shows warning)
    NoIsolation,
    /// Default isolation - clean environment, controlled paths (default)
    Default,
    /// Enhanced isolation - default + private HOME/TMPDIR
    Enhanced,
    /// Hermetic isolation - full whitelist approach, network blocking
    Hermetic,
}

impl Default for IsolationLevel {
    fn default() -> (r: Self)
        ensures
            r == IsolationLevel::Default,
    {
        IsolationLevel::Default
    }
}

/// The number of each level, from 0 (none) to 3 (hermetic).
pub open spec fn level_number(l: IsolationLevel) -> u8 {
    match l {
        IsolationLevel::NoIsolation => 0,
        IsolationLevel::Default => 1,
        IsolationLevel::Enhanced => 2,
        IsolationLevel::Hermetic => 3,
    }
}

/// The name of each level.
pub open spec fn level_name(l: IsolationLevel) -> Seq<char> {
    match l {
        IsolationLevel::NoIsolation => "none"@,
        IsolationLevel::Default => "default"@,
        IsolationLevel::Enhanced => "enhanced"@,
        IsolationLevel::Hermetic => "hermetic"@,
    }
}

/// The level a text names, surrounding whitespace and ASCII case ignored.
pub open spec fn level_from_text(s: Seq<char>) -> Option<IsolationLevel> {
    let n = ascii_lowercase(trim(s));
    if n == "none"@ {
        Some(IsolationLevel::NoIsolation)
    } else if n == "default"@ {
        Some(IsolationLevel::Default)
    } else if n == "enhanced"@ {
        Some(IsolationLevel::Enhanced)
    } else if n == "hermetic"@ {
        Some(IsolationLevel::Hermetic)
    } else {
        None
    }
}

impl IsolationLevel {
    /// Convert from u8
    pub fn from_u8(value: u8) -> (r: Option<Self>)
        ensures
            match r {
                Some(l) => level_number(l) == value,
                None => value > 3,
            },
    {
        match value {
            0 => Some(IsolationLevel::NoIsolation),
            1 => Some(IsolationLevel::Default),
            2 => Some(IsolationLevel::Enhanced),
            3 => Some(IsolationLevel::Hermetic),
            _ => None,
        }
    }

    /// Convert to u8
    pub fn as_u8(self) -> (r: u8)
        ensures
            r == level_number(self),
    {
        match self {
            IsolationLevel::NoIsolation => 0,
            IsolationLevel::Default => 1,
            IsolationLevel::Enhanced => 2,
            IsolationLevel::Hermetic => 3,
        }
    }

    /// The level's name: `none`, `default`, `enhanced` or `hermetic`.
    pub fn name(self) -> (r: &'static str)
        ensures
            r@ == level_name(self),
    {
        match self {
            IsolationLevel::NoIsolation => "none",
            IsolationLevel::Default => "default",
            IsolationLevel::Enhanced => "enhanced",
            IsolationLevel::Hermetic => "hermetic",
        }
    }

    /// Reads a level from its name, whitespace around it and ASCII case
    /// ignored.
    pub fn parse_name(value: &str) -> (r: Option<Self>)
        ensures
            r == level_from_text(value@),
    {
        let v = to_chars(value);
        let t = trim_exec(v.as_slice());
        let mut lower: Vec<char> = Vec::new();
        for i in 0..t.len()
            invariant
                lower@ == ascii_lowercase(t@).take(i as int),
        {
            lower.push(crate::artifact_qa::patchers::python_bytecode_cleanup::ascii_lower_char(t[i]));
            assert(ascii_lowercase(t@).take(i + 1) == ascii_lowercase(t@).take(i as int).push(
                crate::artifact_qa::patchers::python_bytecode_cleanup::ascii_lower(t@[i as int]),
            ));
        }
        assert(ascii_lowercase(t@).take(t@.len() as int) == ascii_lowercase(t@));
        let n = lower.as_slice();
        if eq_str(n, "none") {
            Some(IsolationLevel::NoIsolation)
        } else if eq_str(n, "default") {
            Some(IsolationLevel::Default)
        } else if eq_str(n, "enhanced") {
            Some(IsolationLevel::Enhanced)
        } else if eq_str(n, "hermetic") {
            Some(IsolationLevel::Hermetic)
        } else {
            None
        }
    }
}

/// Levels are numbered 0 to 3, each number naming one level: converting a
/// level to its number and back gives the level.
pub proof fn lemma_level_number_roundtrip(l: IsolationLevel, m: IsolationLevel)
    ensures
        level_number(l) <= 3,
        level_number(l) == level_number(m) ==> l == m,
{
}

} // verus!
