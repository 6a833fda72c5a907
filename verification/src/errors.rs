//! Errors of the build.
use crate::text::{concat, decimal, usize_to_string};
use vstd::prelude::*;

verus! {

/// What went wrong in a build.
#[derive(Clone, Debug, PartialEq, Eq)]
pub enum BuildError {
    Failed { message: String },
    ExtractionFailed { message: String },
    CompilationFailed { message: String },
    CompileFailed { message: String },
    ConfigureFailed { message: String },
    InstallFailed { message: String },
    SandboxViolation { message: String },
    ValidationFailed { message: String },
    RecipeError { message: String },
    GitCloneFailed { message: String },
    DependencyConflict { message: String },
    MissingBuildDep { name: String },
    PatchFailed { patch: String },
    FetchFailed { url: String },
    InvalidUrl { url: String },
    NetworkDisabled { url: String },
    NetworkAccessDenied,
    NoBuildSystemDetected { path: String },
    HashMismatch { file: String, expected: String, actual: String },
    TestsFailed { passed: usize, total: usize },
    Timeout { seconds: u64 },
}

/// The text of an error, as it is shown to the user.
pub open spec fn error_text(e: BuildError) -> Seq<char> {
    match e {
        BuildError::Failed { message } => "Build failed: "@ + message@,
        BuildError::ExtractionFailed { message } => "Extraction failed: "@ + message@,
        BuildError::CompilationFailed { message } => "Compilation failed: "@ + message@,
        BuildError::CompileFailed { message } => "Compile failed: "@ + message@,
        BuildError::ConfigureFailed { message } => "Configure failed: "@ + message@,
        BuildError::InstallFailed { message } => "Install failed: "@ + message@,
        BuildError::SandboxViolation { message } => "Sandbox violation: "@ + message@,
        BuildError::ValidationFailed { message } => "Validation failed: "@ + message@,
        BuildError::RecipeError { message } => "Recipe error: "@ + message@,
        BuildError::GitCloneFailed { message } => "Git clone failed: "@ + message@,
        BuildError::DependencyConflict { message } => "Dependency conflict: "@ + message@,
        BuildError::MissingBuildDep { name } => "Missing build dependency: "@ + name@,
        BuildError::PatchFailed { patch } => "Patch failed: "@ + patch@,
        BuildError::FetchFailed { url } => "Fetch failed: "@ + url@,
        BuildError::InvalidUrl { url } => "Invalid URL: "@ + url@,
        BuildError::NetworkDisabled { url } => "Network access disabled: "@ + url@,
        BuildError::NetworkAccessDenied => "Network access denied"@,
        BuildError::NoBuildSystemDetected { path } => "No build system detected in "@ + path@,
        BuildError::HashMismatch { file, expected, actual } => "Hash mismatch for "@ + file@ + ": expected "@
            + expected@ + ", got "@ + actual@,
        BuildError::TestsFailed { passed, total } => "Tests failed: "@ + decimal(passed as nat) + "/"@ + decimal(
            total as nat,
        ) + " passed"@,
        BuildError::Timeout { seconds } => "Build timed out after "@ + decimal(seconds as nat) + "s"@,
    }
}

fn two(a: &str, b: &String) -> (r: String)
    ensures
        r@ == a@ + b@,
{
    concat(a, b.as_str())
}

impl BuildError {
    /// The text of this error.
    pub fn describe(&self) -> (r: String)
        ensures
            r@ == error_text(*self),
    {
        match self {
            BuildError::Failed { message } => two("Build failed: ", message),
            BuildError::ExtractionFailed { message } => two("Extraction failed: ", message),
            BuildError::CompilationFailed { message } => two("Compilation failed: ", message),
            BuildError::CompileFailed { message } => two("Compile failed: ", message),
            BuildError::ConfigureFailed { message } => two("Configure failed: ", message),
            BuildError::InstallFailed { message } => two("Install failed: ", message),
            BuildError::SandboxViolation { message } => two("Sandbox violation: ", message),
            BuildError::ValidationFailed { message } => two("Validation failed: ", message),
            BuildError::RecipeError { message } => two("Recipe error: ", message),
            BuildError::GitCloneFailed { message } => two("Git clone failed: ", message),
            BuildError::DependencyConflict { message } => two("Dependency conflict: ", message),
            BuildError::MissingBuildDep { name } => two("Missing build dependency: ", name),
            BuildError::PatchFailed { patch } => two("Patch failed: ", patch),
            BuildError::FetchFailed { url } => two("Fetch failed: ", url),
            BuildError::InvalidUrl { url } => two("Invalid URL: ", url),
            BuildError::NetworkDisabled { url } => two("Network access disabled: ", url),
            BuildError::NetworkAccessDenied => crate::text::owned("Network access denied"),
            BuildError::NoBuildSystemDetected { path } => two("No build system detected in ", path),
            BuildError::HashMismatch { file, expected, actual } => {
                let a = two("Hash mismatch for ", file);
                let b = concat(a.as_str(), ": expected ");
                let c = concat(b.as_str(), expected.as_str());
                let d = concat(c.as_str(), ", got ");
                concat(d.as_str(), actual.as_str())
            },
            BuildError::TestsFailed { passed, total } => {
                let a = concat("Tests failed: ", usize_to_string(*passed).as_str());
                let b = concat(a.as_str(), "/");
                let c = concat(b.as_str(), usize_to_string(*total).as_str());
                concat(c.as_str(), " passed")
            },
            BuildError::Timeout { seconds } => {
                let a = concat("Build timed out after ", crate::text::u64_to_string(*seconds).as_str());
                concat(a.as_str(), "s")
            },
        }
    }
}

} // verus!
