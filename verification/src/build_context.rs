//! The identity of one build: the package, its version and revision, the
//! architecture, and where the recipe and the finished package are.
use crate::paths::{join, path_join};
use crate::text::{concat, decimal, owned, u64_to_string};
use vstd::prelude::*;

verus! {

/// Build context for package building
#[derive(Clone, Debug)]
pub struct BuildContext {
    /// Package name
    pub name: String,
    /// Package version, as text
    pub version: String,
    /// Revision number
    pub revision: u32,
    /// Target architecture
    pub arch: String,
    /// Path to the recipe
    pub recipe_path: String,
    /// Output directory for the package
    pub output_dir: String,
    /// Path of the finished package, once made
    pub package_path: Option<String>,
    /// Session identifier for diagnostics
    pub session_id: Option<String>,
}

/// The file name of a package: `<name>-<version>-<revision>.<arch>.sp`.
pub open spec fn package_filename_of(ctx: BuildContext) -> Seq<char> {
    ctx.name@ + "-"@ + ctx.version@ + "-"@ + decimal(ctx.revision as nat) + "."@ + ctx.arch@ + ".sp"@
}

impl BuildContext {
    /// A context for the first revision of a package on arm64.
    pub fn new(name: String, version: String, recipe_path: String, output_dir: String) -> (r: Self)
        ensures
            r.name == name,
            r.version == version,
            r.revision == 1,
            r.arch@ == "arm64"@,
            r.recipe_path == recipe_path,
            r.output_dir == output_dir,
            r.package_path is None,
            r.session_id is None,
    {
        BuildContext {
            name,
            version,
            revision: 1,
            arch: owned("arm64"),
            recipe_path,
            output_dir,
            package_path: None,
            session_id: None,
        }
    }

    /// The same context with another revision.
    pub fn with_revision(self, revision: u32) -> (r: Self)
        ensures
            r == (Self { revision, ..self }),
    {
        let mut s = self;
        s.revision = revision;
        s
    }

    /// The same context for another architecture.
    pub fn with_arch(self, arch: String) -> (r: Self)
        ensures
            r == (Self { arch, ..self }),
    {
        let mut s = self;
        s.arch = arch;
        s
    }

    /// The same context with a session identifier.
    pub fn with_session_id(self, session_id: String) -> (r: Self)
        ensures
            r == (Self { session_id: Some(session_id), ..self }),
    {
        let mut s = self;
        s.session_id = Some(session_id);
        s
    }

    /// The session identifier: the one set, else `build:<name>-<version>`.
    pub fn session_id(&self) -> (r: String)
        ensures
            r@ == match self.session_id {
                Some(s) => s@,
                None => "build:"@ + self.name@ + "-"@ + self.version@,
            },
    {
        match &self.session_id {
            Some(s) => s.clone(),
            None => {
                let a = concat("build:", self.name.as_str());
                let b = concat(a.as_str(), "-");
                concat(b.as_str(), self.version.as_str())
            },
        }
    }

    /// The package's file name.
    pub fn package_filename(&self) -> (r: String)
        ensures
            r@ == package_filename_of(*self),
    {
        let a = concat(self.name.as_str(), "-");
        let b = concat(a.as_str(), self.version.as_str());
        let c = concat(b.as_str(), "-");
        let d = concat(c.as_str(), u64_to_string(self.revision as u64).as_str());
        let e = concat(d.as_str(), ".");
        let f = concat(e.as_str(), self.arch.as_str());
        concat(f.as_str(), ".sp")
    }

    /// Where the finished package goes: its file name in the output directory.
    pub fn output_path(&self) -> (r: String)
        ensures
            r@ == path_join(self.output_dir@, package_filename_of(*self)),
    {
        let f = self.package_filename();
        join(self.output_dir.as_str(), f.as_str())
    }
}

} // verus!
