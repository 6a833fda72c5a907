//! Artifact quality checks: the scanners that look for build paths in staged
//! files, the patchers that repair them, and the pipeline that routes a build
//! through both.
pub mod diagnostics;
pub mod patchers;
pub mod pipeline;
pub mod reports;
pub mod router;
pub mod scanners;

use crate::artifact_qa::patchers::{
    BinaryStringPatcher, CodeSigner, HeaderPatcher, LaFileCleaner, ObjectFileCleaner,
    PermissionsFixer, PkgConfigPatcher, PlaceholderPatcher, PythonBytecodeCleanupPatcher,
    PythonIsolationPatcher, RPathPatcher,
};
use crate::artifact_qa::scanners::{ArchiveScanner, HardcodedScanner, MachOScanner, StagingScanner};
use vstd::prelude::*;

verus! {

/// Enum for all validators
pub enum ValidatorAction {
    HardcodedScanner(HardcodedScanner),
    MachOScanner(MachOScanner),
    ArchiveScanner(ArchiveScanner),
    StagingScanner(StagingScanner),
}

/// Enum for all patchers
pub enum PatcherAction {
    PermissionsFixer(PermissionsFixer),
    PlaceholderPatcher(PlaceholderPatcher),
    RPathPatcher(RPathPatcher),
    HeaderPatcher(HeaderPatcher),
    PkgConfigPatcher(PkgConfigPatcher),
    BinaryStringPatcher(BinaryStringPatcher),
    LaFileCleaner(LaFileCleaner),
    ObjectFileCleaner(ObjectFileCleaner),
    PythonBytecodeCleanupPatcher(PythonBytecodeCleanupPatcher),
    PythonIsolationPatcher(PythonIsolationPatcher),
    CodeSigner(CodeSigner),
}

/// The name a validator reports under.
pub open spec fn validator_name(v: ValidatorAction) -> Seq<char> {
    match v {
        ValidatorAction::HardcodedScanner(_) => "Hardcoded‑path scanner"@,
        ValidatorAction::MachOScanner(_) => "Mach‑O load‑command scanner"@,
        ValidatorAction::ArchiveScanner(_) => "Static‑archive scanner"@,
        ValidatorAction::StagingScanner(_) => "Staging directory scanner"@,
    }
}

/// The name a patcher reports under.
pub open spec fn patcher_name(p: PatcherAction) -> Seq<char> {
    match p {
        PatcherAction::PermissionsFixer(_) => "Permissions fixer"@,
        PatcherAction::PlaceholderPatcher(_) => "Placeholder patcher"@,
        PatcherAction::RPathPatcher(_) => "install_name_tool patcher"@,
        PatcherAction::HeaderPatcher(_) => "Header patcher"@,
        PatcherAction::PkgConfigPatcher(_) => "pkg‑config / CMake patcher"@,
        PatcherAction::BinaryStringPatcher(_) => "Binary string patcher"@,
        PatcherAction::LaFileCleaner(_) => "Libtool archive cleaner"@,
        PatcherAction::ObjectFileCleaner(_) => "Object file cleaner"@,
        PatcherAction::PythonBytecodeCleanupPatcher(_) => "Python Bytecode Cleanup"@,
        PatcherAction::PythonIsolationPatcher(_) => "Python isolation patcher"@,
        PatcherAction::CodeSigner(_) => "Code re-signer"@,
    }
}

impl ValidatorAction {
    /// The name this validator reports under.
    pub fn name(&self) -> (r: &'static str)
        ensures
            r@ == validator_name(*self),
    {
        match self {
            ValidatorAction::HardcodedScanner(_) => "Hardcoded‑path scanner",
            ValidatorAction::MachOScanner(_) => "Mach‑O load‑command scanner",
            ValidatorAction::ArchiveScanner(_) => "Static‑archive scanner",
            ValidatorAction::StagingScanner(_) => "Staging directory scanner",
        }
    }
}

impl PatcherAction {
    /// The name this patcher reports under.
    pub fn name(&self) -> (r: &'static str)
        ensures
            r@ == patcher_name(*self),
    {
        match self {
            PatcherAction::PermissionsFixer(_) => "Permissions fixer",
            PatcherAction::PlaceholderPatcher(_) => "Placeholder patcher",
            PatcherAction::RPathPatcher(_) => "install_name_tool patcher",
            PatcherAction::HeaderPatcher(_) => "Header patcher",
            PatcherAction::PkgConfigPatcher(_) => "pkg‑config / CMake patcher",
            PatcherAction::BinaryStringPatcher(_) => "Binary string patcher",
            PatcherAction::LaFileCleaner(_) => "Libtool archive cleaner",
            PatcherAction::ObjectFileCleaner(_) => "Object file cleaner",
            PatcherAction::PythonBytecodeCleanupPatcher(_) => "Python Bytecode Cleanup",
            PatcherAction::PythonIsolationPatcher(_) => "Python isolation patcher",
            PatcherAction::CodeSigner(_) => "Code re-signer",
        }
    }
}

} // verus!
