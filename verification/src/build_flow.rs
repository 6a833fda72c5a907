//! The stages of a package build, in order: set up the environment, run the
//! recipe, check the result, fix permissions where the recipe asked for it,
//! write the SBOM and manifest, and make the package. The caller runs each
//! stage and reports how it went.
use crate::text::{concat, decimal, usize_to_string};
use vstd::prelude::*;

verus! {

/// A stage of a build.
#[derive(Clone, Copy, Debug, PartialEq, Eq, Structural)]
pub enum BuildStage {
    SetupEnvironment,
    ExecuteRecipe,
    QualityPipeline,
    FixPermissions,
    SbomAndManifest,
    Package,
    /// The package was made.
    Finished,
    /// A stage failed; nothing more runs.
    Failed,
}

/// The stage after one that succeeded; permissions are fixed only where the
/// recipe asked for it.
pub open spec fn next_stage(stage: BuildStage, fix_requested: bool) -> BuildStage {
    match stage {
        BuildStage::SetupEnvironment => BuildStage::ExecuteRecipe,
        BuildStage::ExecuteRecipe => BuildStage::QualityPipeline,
        BuildStage::QualityPipeline => if fix_requested {
            BuildStage::FixPermissions
        } else {
            BuildStage::SbomAndManifest
        },
        BuildStage::FixPermissions => BuildStage::SbomAndManifest,
        BuildStage::SbomAndManifest => BuildStage::Package,
        BuildStage::Package => BuildStage::Finished,
        BuildStage::Finished => BuildStage::Finished,
        BuildStage::Failed => BuildStage::Failed,
    }
}

/// Where a build stands.
#[derive(Debug)]
pub struct BuildRun {
    /// The stage to run next, or how the build ended
    pub stage: BuildStage,
    /// Whether the recipe asked for permissions to be fixed
    pub fix_requested: bool,
}

impl BuildRun {
    /// A build that has not started: its environment comes first.
    pub fn start() -> (r: Self)
        ensures
            r.stage == BuildStage::SetupEnvironment,
            !r.fix_requested,
    {
        BuildRun { stage: BuildStage::SetupEnvironment, fix_requested: false }
    }

    /// Takes the outcome of the current stage; the recipe stage also tells
    /// whether permissions are to be fixed. A failure ends the build; an
    /// ended build stays ended.
    pub fn advance(&mut self, succeeded: bool, fix_requested: bool) -> (r: BuildStage)
        ensures
            final(self).fix_requested == (if old(self).stage == BuildStage::ExecuteRecipe && succeeded {
                fix_requested
            } else {
                old(self).fix_requested
            }),
            r == final(self).stage,
            old(self).stage == BuildStage::Finished || old(self).stage == BuildStage::Failed ==> r == old(self).stage,
            old(self).stage != BuildStage::Finished && old(self).stage != BuildStage::Failed ==> r == (if succeeded {
                next_stage(old(self).stage, final(self).fix_requested)
            } else {
                BuildStage::Failed
            }),
    {
        match self.stage {
            BuildStage::Finished | BuildStage::Failed => {},
            _ => {
                if succeeded {
                    if self.stage == BuildStage::ExecuteRecipe {
                        self.fix_requested = fix_requested;
                    }
                    self.stage = match self.stage {
                        BuildStage::SetupEnvironment => BuildStage::ExecuteRecipe,
                        BuildStage::ExecuteRecipe => BuildStage::QualityPipeline,
                        BuildStage::QualityPipeline => if self.fix_requested {
                            BuildStage::FixPermissions
                        } else {
                            BuildStage::SbomAndManifest
                        },
                        BuildStage::FixPermissions => BuildStage::SbomAndManifest,
                        BuildStage::SbomAndManifest => BuildStage::Package,
                        _ => BuildStage::Finished,
                    };
                } else {
                    self.stage = BuildStage::Failed;
                }
            },
        }
        self.stage
    }
}

/// The stages a successful build runs through, in order.
pub open spec fn successful_stages(fix_requested: bool) -> Seq<BuildStage> {
    if fix_requested {
        seq![
            BuildStage::SetupEnvironment,
            BuildStage::ExecuteRecipe,
            BuildStage::QualityPipeline,
            BuildStage::FixPermissions,
            BuildStage::SbomAndManifest,
            BuildStage::Package,
        ]
    } else {
        seq![
            BuildStage::SetupEnvironment,
            BuildStage::ExecuteRecipe,
            BuildStage::QualityPipeline,
            BuildStage::SbomAndManifest,
            BuildStage::Package,
        ]
    }
}

/// A build whose stages all succeed runs them in order and ends finished:
/// the quality checks always come before packaging, and the permission fix
/// runs exactly when the recipe asked for it.
pub proof fn lemma_successful_build_order(fix_requested: bool)
    ensures
        ({
            let s = successful_stages(fix_requested);
            &&& s[0] == BuildStage::SetupEnvironment
            &&& forall|i: int| 0 <= i < s.len() - 1 ==> next_stage(#[trigger] s[i], fix_requested) == s[i + 1]
            &&& next_stage(s.last(), fix_requested) == BuildStage::Finished
            &&& s.contains(BuildStage::FixPermissions) == fix_requested
        }),
{
    let s = successful_stages(fix_requested);
    if fix_requested {
        assert(s[3] == BuildStage::FixPermissions);
    } else {
        assert forall|i: int| 0 <= i < s.len() implies s[i] != BuildStage::FixPermissions by {}
    }
}

/// The message that opens a build.
pub fn building_message(name: &str, version: &str) -> (r: String)
    ensures
        r@ == "Building "@ + name@ + " "@ + version@,
{
    let a = concat("Building ", name);
    let b = concat(a.as_str(), " ");
    concat(b.as_str(), version)
}

/// The message that closes a build.
pub fn built_message(name: &str, version: &str) -> (r: String)
    ensures
        r@ == "Built "@ + name@ + " "@ + version@,
{
    let a = concat("Built ", name);
    let b = concat(a.as_str(), " ");
    concat(b.as_str(), version)
}

/// The message that announces the build dependencies.
pub fn dependency_setup_message(count: usize) -> (r: String)
    ensures
        r@ == "Setting up "@ + decimal(count as nat) + " build dependencies"@,
{
    let a = concat("Setting up ", usize_to_string(count).as_str());
    concat(a.as_str(), " build dependencies")
}

} // verus!
