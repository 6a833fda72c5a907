//! Build system-specific post-validation pipeline routing: which validators
//! and patchers run, chosen by the build systems that a build used.
use crate::artifact_qa::patchers::{
    BinaryStringPatcher, CodeSigner, HeaderPatcher, LaFileCleaner, ObjectFileCleaner,
    PkgConfigPatcher, PlaceholderPatcher, PythonBytecodeCleanupPatcher, PythonIsolationPatcher,
    RPathPatcher, RpathStyle,
};
use crate::artifact_qa::scanners::{ArchiveScanner, HardcodedScanner, MachOScanner, StagingScanner};
use crate::artifact_qa::{PatcherAction, ValidatorAction};
use crate::text::{eq_str, string_views};
use vstd::prelude::*;

verus! {

/// How thoroughly a build's artifacts are validated and patched.
#[derive(Clone, Copy, Debug, PartialEq, Eq, Structural)]
pub enum BuildSystemProfile {
    /// C/C++ and other native builds: everything.
    NativeFull,
    /// Rust: only the staging check, no patching.
    RustMinimal,
    /// Go: no archive scan, only placeholder patching and signing.
    GoMedium,
    /// Scripting languages: text-level checks and fixes.
    ScriptLight,
}

/// A recipe's choice of QA pipeline.
#[derive(Clone, Copy, Debug, PartialEq, Eq, Structural)]
pub enum QaPipelineOverride {
    /// Choose by the build systems used.
    Auto,
    /// The Rust pipeline.
    Rust,
    /// The full C/C++ pipeline.
    C,
    /// The Go pipeline.
    Go,
    /// The script pipeline.
    Python,
    /// No QA at all.
    Skip,
}

/// How strict the QA run is reported to be.
#[derive(Clone, Copy, Debug, PartialEq, Eq, Structural)]
pub enum QaLevel {
    Fast,
    Standard,
    Strict,
}

/// The profile an override forces, if any.
pub open spec fn override_profile(o: QaPipelineOverride) -> Option<BuildSystemProfile> {
    match o {
        QaPipelineOverride::Rust => Some(BuildSystemProfile::RustMinimal),
        QaPipelineOverride::C => Some(BuildSystemProfile::NativeFull),
        QaPipelineOverride::Go => Some(BuildSystemProfile::GoMedium),
        QaPipelineOverride::Python => Some(BuildSystemProfile::ScriptLight),
        _ => None,
    }
}

impl QaPipelineOverride {
    /// Whether QA is skipped entirely.
    pub fn skips_qa(self) -> (r: bool)
        ensures
            r == (self == QaPipelineOverride::Skip),
    {
        match self {
            QaPipelineOverride::Skip => true,
            _ => false,
        }
    }

    /// The profile this override forces, if any.
    pub fn to_profile(self) -> (r: Option<BuildSystemProfile>)
        ensures
            r == override_profile(self),
    {
        match self {
            QaPipelineOverride::Rust => Some(BuildSystemProfile::RustMinimal),
            QaPipelineOverride::C => Some(BuildSystemProfile::NativeFull),
            QaPipelineOverride::Go => Some(BuildSystemProfile::GoMedium),
            QaPipelineOverride::Python => Some(BuildSystemProfile::ScriptLight),
            _ => None,
        }
    }
}

/// The profile for a set of used build systems: full validation when none
/// was recorded; else Rust wins, then Go, then the script languages; native
/// build systems get full validation.
pub open spec fn profile_for(used: Seq<Seq<char>>) -> BuildSystemProfile {
    if used.len() == 0 {
        BuildSystemProfile::NativeFull
    } else if used.contains("cargo"@) {
        BuildSystemProfile::RustMinimal
    } else if used.contains("go"@) {
        BuildSystemProfile::GoMedium
    } else if used.contains("python"@) || used.contains("nodejs"@) {
        BuildSystemProfile::ScriptLight
    } else {
        BuildSystemProfile::NativeFull
    }
}

/// The validators of a profile, in the order they run.
pub open spec fn validators_for(p: BuildSystemProfile) -> Seq<ValidatorAction> {
    match p {
        BuildSystemProfile::NativeFull => seq![
            ValidatorAction::StagingScanner(StagingScanner),
            ValidatorAction::HardcodedScanner(HardcodedScanner),
            ValidatorAction::MachOScanner(MachOScanner),
            ValidatorAction::ArchiveScanner(ArchiveScanner),
        ],
        BuildSystemProfile::RustMinimal => seq![ValidatorAction::StagingScanner(StagingScanner)],
        BuildSystemProfile::GoMedium => seq![
            ValidatorAction::StagingScanner(StagingScanner),
            ValidatorAction::HardcodedScanner(HardcodedScanner),
            ValidatorAction::MachOScanner(MachOScanner),
        ],
        BuildSystemProfile::ScriptLight => seq![
            ValidatorAction::StagingScanner(StagingScanner),
            ValidatorAction::HardcodedScanner(HardcodedScanner),
        ],
    }
}

/// The patchers of a profile, in the order they run; the code signer, where
/// present, comes last.
pub open spec fn patchers_for(p: BuildSystemProfile) -> Seq<PatcherAction> {
    match p {
        BuildSystemProfile::NativeFull => seq![
            PatcherAction::PlaceholderPatcher(PlaceholderPatcher),
            PatcherAction::BinaryStringPatcher(BinaryStringPatcher),
            PatcherAction::RPathPatcher(RPathPatcher::with_style(RpathStyle::Modern)),
            PatcherAction::HeaderPatcher(HeaderPatcher),
            PatcherAction::PkgConfigPatcher(PkgConfigPatcher),
            PatcherAction::LaFileCleaner(LaFileCleaner),
            PatcherAction::ObjectFileCleaner(ObjectFileCleaner),
            PatcherAction::CodeSigner(CodeSigner),
        ],
        BuildSystemProfile::RustMinimal => seq![],
        BuildSystemProfile::GoMedium => seq![
            PatcherAction::PlaceholderPatcher(PlaceholderPatcher),
            PatcherAction::CodeSigner(CodeSigner),
        ],
        BuildSystemProfile::ScriptLight => seq![
            PatcherAction::HeaderPatcher(HeaderPatcher),
            PatcherAction::PkgConfigPatcher(PkgConfigPatcher),
            PatcherAction::PythonBytecodeCleanupPatcher(PythonBytecodeCleanupPatcher),
            PatcherAction::PythonIsolationPatcher(PythonIsolationPatcher),
        ],
    }
}

/// The QA level reported for a profile.
pub open spec fn level_for(p: BuildSystemProfile) -> QaLevel {
    match p {
        BuildSystemProfile::NativeFull => QaLevel::Strict,
        BuildSystemProfile::GoMedium => QaLevel::Standard,
        _ => QaLevel::Fast,
    }
}

fn contains_name(used: &Vec<String>, name: &str) -> (r: bool)
    ensures
        r == string_views(used@).contains(name@),
{
    for i in 0..used.len()
        invariant
            forall|j: int| 0 <= j < i ==> used@[j]@ != name@,
    {
        if eq_str(crate::text::to_chars(used[i].as_str()).as_slice(), name) {
            assert(string_views(used@)[i as int] == name@);
            return true;
        }
    }
    proof {
        if string_views(used@).contains(name@) {
            let j = choose|j: int| 0 <= j < string_views(used@).len() && string_views(used@)[j] == name@;
            assert(used@[j]@ == name@);
        }
    }
    false
}

/// Determine the build system profile based on used build systems
pub fn determine_profile(used_build_systems: &Vec<String>) -> (r: BuildSystemProfile)
    ensures
        r == profile_for(string_views(used_build_systems@)),
{
    if used_build_systems.len() == 0 {
        return BuildSystemProfile::NativeFull;
    }
    if contains_name(used_build_systems, "cargo") {
        return BuildSystemProfile::RustMinimal;
    }
    if contains_name(used_build_systems, "go") {
        return BuildSystemProfile::GoMedium;
    }
    if contains_name(used_build_systems, "python") || contains_name(used_build_systems, "nodejs") {
        return BuildSystemProfile::ScriptLight;
    }
    BuildSystemProfile::NativeFull
}

/// Determine the build system profile with optional manual override: `None`
/// when the override skips QA, the forced profile when it names one, else the
/// profile of the used build systems.
pub fn determine_profile_with_override(
    used_build_systems: &Vec<String>,
    qa_override: Option<QaPipelineOverride>,
) -> (r: Option<BuildSystemProfile>)
    ensures
        r == match qa_override {
            Some(QaPipelineOverride::Skip) => None,
            Some(o) if override_profile(o) is Some => override_profile(o),
            _ => Some(profile_for(string_views(used_build_systems@))),
        },
{
    if let Some(override_val) = qa_override {
        if override_val.skips_qa() {
            return None;
        }
        if let Some(profile) = override_val.to_profile() {
            return Some(profile);
        }
    }
    Some(determine_profile(used_build_systems))
}

/// The profile of a single build system's name.
pub fn profile_from_build_system(name: &str) -> (r: BuildSystemProfile)
    ensures
        r == profile_for(seq![name@]),
{
    let mut v: Vec<String> = Vec::new();
    v.push(crate::text::owned(name));
    assert(string_views(v@) =~= seq![name@]);
    determine_profile(&v)
}

/// Get validators for a specific build system profile
pub fn get_validators_for_profile(profile: BuildSystemProfile) -> (r: Vec<ValidatorAction>)
    ensures
        r@ == validators_for(profile),
{
    let mut v: Vec<ValidatorAction> = Vec::new();
    v.push(ValidatorAction::StagingScanner(StagingScanner));
    match profile {
        BuildSystemProfile::NativeFull => {
            v.push(ValidatorAction::HardcodedScanner(HardcodedScanner));
            v.push(ValidatorAction::MachOScanner(MachOScanner));
            v.push(ValidatorAction::ArchiveScanner(ArchiveScanner));
        },
        BuildSystemProfile::RustMinimal => {},
        BuildSystemProfile::GoMedium => {
            v.push(ValidatorAction::HardcodedScanner(HardcodedScanner));
            v.push(ValidatorAction::MachOScanner(MachOScanner));
        },
        BuildSystemProfile::ScriptLight => {
            v.push(ValidatorAction::HardcodedScanner(HardcodedScanner));
        },
    }
    assert(v@ =~= validators_for(profile));
    v
}

/// Get patchers for a specific build system profile
pub fn get_patchers_for_profile(profile: BuildSystemProfile) -> (r: Vec<PatcherAction>)
    ensures
        r@ == patchers_for(profile),
{
    let mut v: Vec<PatcherAction> = Vec::new();
    match profile {
        BuildSystemProfile::NativeFull => {
            v.push(PatcherAction::PlaceholderPatcher(PlaceholderPatcher));
            v.push(PatcherAction::BinaryStringPatcher(BinaryStringPatcher));
            v.push(PatcherAction::RPathPatcher(RPathPatcher::new(RpathStyle::Modern)));
            v.push(PatcherAction::HeaderPatcher(HeaderPatcher));
            v.push(PatcherAction::PkgConfigPatcher(PkgConfigPatcher));
            v.push(PatcherAction::LaFileCleaner(LaFileCleaner));
            v.push(PatcherAction::ObjectFileCleaner(ObjectFileCleaner));
            v.push(PatcherAction::CodeSigner(CodeSigner::new()));
        },
        BuildSystemProfile::RustMinimal => {},
        BuildSystemProfile::GoMedium => {
            v.push(PatcherAction::PlaceholderPatcher(PlaceholderPatcher));
            v.push(PatcherAction::CodeSigner(CodeSigner::new()));
        },
        BuildSystemProfile::ScriptLight => {
            v.push(PatcherAction::HeaderPatcher(HeaderPatcher));
            v.push(PatcherAction::PkgConfigPatcher(PkgConfigPatcher));
            v.push(PatcherAction::PythonBytecodeCleanupPatcher(PythonBytecodeCleanupPatcher));
            v.push(PatcherAction::PythonIsolationPatcher(PythonIsolationPatcher));
        },
    }
    assert(v@ =~= patchers_for(profile));
    v
}

/// Get a descriptive name for the pipeline
pub fn get_pipeline_name(profile: BuildSystemProfile) -> (r: &'static str)
    ensures
        r@ == match profile {
            BuildSystemProfile::NativeFull => "Full C/C++ validation pipeline"@,
            BuildSystemProfile::RustMinimal => "Minimal Rust validation pipeline"@,
            BuildSystemProfile::GoMedium => "Medium Go validation pipeline"@,
            BuildSystemProfile::ScriptLight => "Light script validation pipeline"@,
        },
{
    match profile {
        BuildSystemProfile::NativeFull => "Full C/C++ validation pipeline",
        BuildSystemProfile::RustMinimal => "Minimal Rust validation pipeline",
        BuildSystemProfile::GoMedium => "Medium Go validation pipeline",
        BuildSystemProfile::ScriptLight => "Light script validation pipeline",
    }
}

/// The QA level reported for a profile.
pub fn qa_level_for_profile(profile: BuildSystemProfile) -> (r: QaLevel)
    ensures
        r == level_for(profile),
{
    match profile {
        BuildSystemProfile::NativeFull => QaLevel::Strict,
        BuildSystemProfile::GoMedium => QaLevel::Standard,
        BuildSystemProfile::ScriptLight => QaLevel::Fast,
        BuildSystemProfile::RustMinimal => QaLevel::Fast,
    }
}

/// Every profile validates the staging directory first, and a profile that
/// signs code does so after every other patcher.
pub proof fn lemma_pipeline_order(p: BuildSystemProfile)
    ensures
        validators_for(p).len() >= 1,
        validators_for(p)[0] is StagingScanner,
        forall|i: int| 0 <= i < patchers_for(p).len() && (#[trigger] patchers_for(p)[i]) is CodeSigner
            ==> i == patchers_for(p).len() - 1,
{
}

} // verus!
