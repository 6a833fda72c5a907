//! Build dependencies and build directories: what to do with each resolved
//! dependency, whether one is installed, and what a build leaves to clean.
use crate::errors::BuildError;
use crate::paths::{join, path_join};
use crate::text::{concat, owned, string_views, to_chars};
use vstd::prelude::*;

verus! {

/// How the resolver means a dependency to be provided.
#[derive(Clone, Copy, Debug, PartialEq, Eq, Structural)]
pub enum NodeAction {
    /// Download the package
    Download,
    /// Use a local package
    Local,
}

/// A dependency as the resolver hands it over.
#[derive(Clone, Debug)]
pub struct ResolvedDependency {
    pub name: String,
    pub version: String,
    pub action: NodeAction,
    pub path: Option<String>,
    pub url: Option<String>,
}

/// What the build does for one dependency.
#[derive(Debug)]
pub enum InstallDecision {
    /// It is installed already; check that it is.
    VerifyInstalled,
    /// Download it to this file name, then stop: it must be installed first.
    Download { url: String, file_name: String },
    /// Stop with this error.
    Fail(BuildError),
    /// Nothing to do.
    Nothing,
}

/// The message of a dependency that must be installed before the build.
pub open spec fn needs_install_text(name: Seq<char>, version: Seq<char>) -> Seq<char> {
    name + " "@ + version + " needs to be installed via 'sps2 install'"@
}

/// Whether a decision stops with a missing dependency of this name.
pub open spec fn fails_missing(d: InstallDecision, name: Seq<char>) -> bool {
    d matches InstallDecision::Fail(BuildError::MissingBuildDep { name: n }) && n@ == name
}

/// The decision for a dependency, given which services the build has: a
/// local dependency without a path is installed already; without an
/// installer, store or network client nothing else can be done; a download
/// is fetched to `<name>-<version>.sp`; a local package with a path must be
/// installed first.
pub open spec fn install_decision_ok(
    node: ResolvedDependency,
    has_installer: bool,
    has_store: bool,
    has_net: bool,
    d: InstallDecision,
) -> bool {
    let installed = node.action == NodeAction::Local && match node.path {
        None => true,
        Some(p) => p@.len() == 0,
    };
    if installed {
        d is VerifyInstalled
    } else if !has_installer {
        fails_missing(d, "installer not configured"@)
    } else if !has_store {
        fails_missing(d, "package store not configured"@)
    } else if !has_net {
        fails_missing(d, "network client not configured"@)
    } else {
        match node.action {
            NodeAction::Download => match node.url {
                Some(u) => d matches InstallDecision::Download { url, file_name } && url@ == u@ && file_name@ == node.name@
                    + "-"@ + node.version@ + ".sp"@,
                None => d is Nothing,
            },
            NodeAction::Local => fails_missing(d, needs_install_text(node.name@, node.version@)),
        }
    }
}

/// The message of a dependency that must be installed before the build.
pub fn needs_install_message(name: &str, version: &str) -> (r: String)
    ensures
        r@ == needs_install_text(name@, version@),
{
    let a = concat(name, " ");
    let b = concat(a.as_str(), version);
    concat(b.as_str(), " needs to be installed via 'sps2 install'")
}

/// What to do for a resolved dependency.
pub fn decide_install(node: &ResolvedDependency, has_installer: bool, has_store: bool, has_net: bool) -> (r: InstallDecision)
    ensures
        install_decision_ok(*node, has_installer, has_store, has_net, r),
{
    let installed = node.action == NodeAction::Local && match &node.path {
        None => true,
        Some(p) => to_chars(p.as_str()).len() == 0,
    };
    if installed {
        return InstallDecision::VerifyInstalled;
    }
    if !has_installer {
        return InstallDecision::Fail(BuildError::MissingBuildDep { name: owned("installer not configured") });
    }
    if !has_store {
        return InstallDecision::Fail(BuildError::MissingBuildDep { name: owned("package store not configured") });
    }
    if !has_net {
        return InstallDecision::Fail(BuildError::MissingBuildDep { name: owned("network client not configured") });
    }
    match node.action {
        NodeAction::Download => match &node.url {
            Some(u) => {
                let a = concat(node.name.as_str(), "-");
                let b = concat(a.as_str(), node.version.as_str());
                InstallDecision::Download { url: u.clone(), file_name: concat(b.as_str(), ".sp") }
            },
            None => InstallDecision::Nothing,
        },
        NodeAction::Local => InstallDecision::Fail(
            BuildError::MissingBuildDep { name: needs_install_message(node.name.as_str(), node.version.as_str()) },
        ),
    }
}

/// Whether a package of this name and version is among the installed ones.
pub open spec fn is_installed_in(installed: Seq<(Seq<char>, Seq<char>)>, name: Seq<char>, version: Seq<char>) -> bool {
    installed.contains((name, version))
}

/// Checks that a dependency is installed: among the installed packages, by
/// name and version.
pub fn verify_installed_package(installed: &Vec<(String, String)>, name: &str, version: &str) -> (r: Result<(), BuildError>)
    ensures
        is_installed_in(installed@.map_values(|p: (String, String)| (p.0@, p.1@)), name@, version@) ==> r is Ok,
        !is_installed_in(installed@.map_values(|p: (String, String)| (p.0@, p.1@)), name@, version@) ==> (r matches Err(
            BuildError::MissingBuildDep { name: n },
        ) && n@ == name@ + " "@ + version@ + " is not installed"@),
{
    let ghost iv = installed@.map_values(|p: (String, String)| (p.0@, p.1@));
    let nv = to_chars(name);
    let vv = to_chars(version);
    for i in 0..installed.len()
        invariant
            iv == installed@.map_values(|p: (String, String)| (p.0@, p.1@)),
            nv@ == name@,
            vv@ == version@,
            forall|k: int| 0 <= k < i ==> iv[k] != (name@, version@),
    {
        let a = to_chars(installed[i].0.as_str());
        let b = to_chars(installed[i].1.as_str());
        if crate::text::chars_eq(a.as_slice(), nv.as_slice()) && crate::text::chars_eq(b.as_slice(), vv.as_slice()) {
            assert(iv[i as int] == (name@, version@));
            return Ok(());
        }
    }
    let a = concat(name, " ");
    let b = concat(a.as_str(), version);
    Err(BuildError::MissingBuildDep { name: concat(b.as_str(), " is not installed") })
}

/// The directories a build's cleanup removes: `src`, `build` and `tmp`
/// under its build prefix.
pub fn cleanup_dirs(build_prefix: &str) -> (r: Vec<String>)
    ensures
        string_views(r@) == seq![
            path_join(build_prefix@, "src"@),
            path_join(build_prefix@, "build"@),
            path_join(build_prefix@, "tmp"@),
        ],
{
    let mut r: Vec<String> = Vec::new();
    r.push(join(build_prefix, "src"));
    r.push(join(build_prefix, "build"));
    r.push(join(build_prefix, "tmp"));
    assert(string_views(r@) =~= seq![
        path_join(build_prefix@, "src"@),
        path_join(build_prefix@, "build"@),
        path_join(build_prefix@, "tmp"@),
    ]);
    r
}

/// The message of a directory the build could not create.
pub fn create_failure_message(what: &str, dir: &str, error: &str) -> (r: String)
    ensures
        r@ == "Failed to create "@ + what@ + " "@ + dir@ + ": "@ + error@,
{
    let a = concat("Failed to create ", what);
    let b = concat(a.as_str(), " ");
    let c = concat(b.as_str(), dir);
    let d = concat(c.as_str(), ": ");
    concat(d.as_str(), error)
}

} // verus!
