//! The staged plan of a build: how the source is obtained, which build
//! steps run, and what is done to the result afterwards.
use crate::artifact_qa::patchers::rpath::RpathStyle;
use crate::environment::types::IsolationLevel;
use crate::string_map::StringMap;
use crate::text::{owned, string_views};
use vstd::prelude::*;

verus! {

/// Checksum of a fetched source.
#[derive(Clone, Debug)]
pub enum ChecksumAlgorithm {
    Blake3 { blake3: String },
    Sha256 { sha256: String },
    Md5 { md5: String },
}

/// How a recipe obtains its source.
#[derive(Clone, Debug)]
pub enum SourceMethod {
    /// Clone a repository at a reference
    Git { url: String, git_ref: String },
    /// Download an archive, checked against a checksum if one is given
    Fetch { url: String, checksum: Option<ChecksumAlgorithm> },
    /// Copy a local directory
    Local { path: String },
}

/// The source section of a recipe.
#[derive(Clone, Debug)]
pub struct SourceSpec {
    /// How the source is obtained
    pub method: SourceMethod,
    /// Patches to apply, in order
    pub patches: Vec<String>,
}

/// One operation of the source stage.
#[derive(Clone, Debug)]
pub enum SourceStep {
    Git { url: String, ref_: String },
    Fetch { url: String },
    FetchMd5 { url: String, md5: String },
    FetchSha256 { url: String, sha256: String },
    FetchBlake3 { url: String, blake3: String },
    Copy { src_path: Option<String> },
    ApplyPatch { path: String },
}

/// A build system a recipe can name.
#[derive(Clone, Copy, Debug, PartialEq, Eq, Structural)]
pub enum BuildSystemKind {
    Autotools,
    Cmake,
    Meson,
    Cargo,
    Go,
    Python,
    Nodejs,
    Make,
}

/// One operation of the build stage.
#[derive(Clone, Debug)]
pub enum BuildCommand {
    Autotools { args: Vec<String> },
    Cmake { args: Vec<String> },
    Meson { args: Vec<String> },
    Cargo { args: Vec<String> },
    Go { args: Vec<String> },
    Python { args: Vec<String> },
    NodeJs { args: Vec<String> },
    Make { args: Vec<String> },
    /// A command of the recipe's own
    Command { program: String, args: Vec<String> },
}

/// The build section of a recipe: a build system with arguments, or steps
/// that were already checked.
#[derive(Clone, Debug)]
pub enum BuildSpec {
    System { system: BuildSystemKind, args: Vec<String> },
    Steps { steps: Vec<BuildCommand> },
}

/// Whether to fix permissions after the build: on or off, or on for the
/// given paths.
#[derive(Clone, Debug)]
pub enum PostOption {
    Enabled(bool),
    Paths(Vec<String>),
}

/// Whether and how to patch the RPATHs of the result.
#[derive(Clone, Copy, Debug, PartialEq, Eq, Structural)]
pub enum RpathPatchOption {
    Default,
    Absolute,
    Skip,
}

/// One operation of the post-processing stage.
#[derive(Clone, Debug)]
pub enum PostStep {
    /// Fix permissions of these paths (all default paths when empty)
    FixPermissions { paths: Vec<String> },
    /// Patch RPATHs in this style in these paths (all default paths when empty)
    PatchRpaths { style: RpathStyle, paths: Vec<String> },
    /// A command of the recipe's own
    Command { command: String },
}

/// The post-processing section of a recipe.
#[derive(Clone, Debug)]
pub struct PostSpec {
    pub fix_permissions: PostOption,
    pub patch_rpaths: RpathPatchOption,
    pub commands: Vec<String>,
}

/// Environment configuration to apply before build
#[derive(Clone, Debug)]
pub struct EnvironmentConfig {
    /// Isolation level
    pub isolation: IsolationLevel,
    /// Whether to apply compiler defaults
    pub defaults: bool,
    /// Whether to allow network access
    pub network: bool,
    /// Environment variables to set
    pub variables: StringMap,
}

/// The shape of a source step, as views.
pub enum SourceStepView {
    Git { url: Seq<char>, ref_: Seq<char> },
    Fetch { url: Seq<char> },
    FetchMd5 { url: Seq<char>, md5: Seq<char> },
    FetchSha256 { url: Seq<char>, sha256: Seq<char> },
    FetchBlake3 { url: Seq<char>, blake3: Seq<char> },
    Copy { src_path: Option<Seq<char>> },
    ApplyPatch { path: Seq<char> },
}

impl View for SourceStep {
    type V = SourceStepView;

    open spec fn view(&self) -> SourceStepView {
        match self {
            SourceStep::Git { url, ref_ } => SourceStepView::Git { url: url@, ref_: ref_@ },
            SourceStep::Fetch { url } => SourceStepView::Fetch { url: url@ },
            SourceStep::FetchMd5 { url, md5 } => SourceStepView::FetchMd5 { url: url@, md5: md5@ },
            SourceStep::FetchSha256 { url, sha256 } => SourceStepView::FetchSha256 { url: url@, sha256: sha256@ },
            SourceStep::FetchBlake3 { url, blake3 } => SourceStepView::FetchBlake3 { url: url@, blake3: blake3@ },
            SourceStep::Copy { src_path } => SourceStepView::Copy {
                src_path: match src_path {
                    Some(p) => Some(p@),
                    None => None,
                },
            },
            SourceStep::ApplyPatch { path } => SourceStepView::ApplyPatch { path: path@ },
        }
    }
}

/// The step that obtains the source.
pub open spec fn acquisition_step(m: SourceMethod) -> SourceStepView {
    match m {
        SourceMethod::Git { url, git_ref } => SourceStepView::Git { url: url@, ref_: git_ref@ },
        SourceMethod::Fetch { url, checksum } => match checksum {
            Some(ChecksumAlgorithm::Blake3 { blake3 }) => SourceStepView::FetchBlake3 { url: url@, blake3: blake3@ },
            Some(ChecksumAlgorithm::Sha256 { sha256 }) => SourceStepView::FetchSha256 { url: url@, sha256: sha256@ },
            Some(ChecksumAlgorithm::Md5 { md5 }) => SourceStepView::FetchMd5 { url: url@, md5: md5@ },
            None => SourceStepView::Fetch { url: url@ },
        },
        SourceMethod::Local { path } => SourceStepView::Copy { src_path: Some(path@) },
    }
}

/// The step that applies a patch.
pub open spec fn patch_step(p: Seq<char>) -> SourceStepView {
    SourceStepView::ApplyPatch { path: p }
}

/// The source steps of a recipe: obtain the source, then apply each patch.
pub open spec fn source_steps_of(src: SourceSpec) -> Seq<SourceStepView> {
    seq![acquisition_step(src.method)] + string_views(src.patches@).map_values(|p: Seq<char>| patch_step(p))
}

/// The views of source steps.
pub open spec fn source_step_views(v: Seq<SourceStep>) -> Seq<SourceStepView> {
    v.map_values(|s: SourceStep| s@)
}

fn copy_args(args: &Vec<String>) -> (r: Vec<String>)
    ensures
        string_views(r@) == string_views(args@),
{
    let mut r: Vec<String> = Vec::new();
    for i in 0..args.len()
        invariant
            string_views(r@) == string_views(args@).take(i as int),
    {
        let ghost prev = r@;
        r.push(args[i].clone());
        assert(string_views(r@) =~= string_views(prev).push(args@[i as int]@));
        assert(string_views(args@).take(i + 1) =~= string_views(args@).take(i as int).push(args@[i as int]@));
    }
    assert(string_views(args@).take(args@.len() as int) =~= string_views(args@));
    r
}

/// The build system a command runs, where it runs one.
pub open spec fn command_system(c: BuildCommand) -> Option<BuildSystemKind> {
    match c {
        BuildCommand::Autotools { .. } => Some(BuildSystemKind::Autotools),
        BuildCommand::Cmake { .. } => Some(BuildSystemKind::Cmake),
        BuildCommand::Meson { .. } => Some(BuildSystemKind::Meson),
        BuildCommand::Cargo { .. } => Some(BuildSystemKind::Cargo),
        BuildCommand::Go { .. } => Some(BuildSystemKind::Go),
        BuildCommand::Python { .. } => Some(BuildSystemKind::Python),
        BuildCommand::NodeJs { .. } => Some(BuildSystemKind::Nodejs),
        BuildCommand::Make { .. } => Some(BuildSystemKind::Make),
        BuildCommand::Command { .. } => None,
    }
}

/// The arguments of a build-system command.
pub open spec fn command_args(c: BuildCommand) -> Seq<Seq<char>> {
    match c {
        BuildCommand::Autotools { args } => string_views(args@),
        BuildCommand::Cmake { args } => string_views(args@),
        BuildCommand::Meson { args } => string_views(args@),
        BuildCommand::Cargo { args } => string_views(args@),
        BuildCommand::Go { args } => string_views(args@),
        BuildCommand::Python { args } => string_views(args@),
        BuildCommand::NodeJs { args } => string_views(args@),
        BuildCommand::Make { args } => string_views(args@),
        BuildCommand::Command { args, .. } => string_views(args@),
    }
}

/// A step that fixes the permissions of these paths.
pub open spec fn is_fix_step(step: PostStep, paths: Seq<Seq<char>>) -> bool {
    match step {
        PostStep::FixPermissions { paths: p } => string_views(p@) == paths,
        _ => false,
    }
}

/// A step that patches RPATHs in this style in all default paths.
pub open spec fn is_rpath_step(step: PostStep, style: RpathStyle) -> bool {
    match step {
        PostStep::PatchRpaths { style: s, paths } => s == style && paths@.len() == 0,
        _ => false,
    }
}

/// A step that runs this command.
pub open spec fn is_command_step(step: PostStep, command: Seq<char>) -> bool {
    match step {
        PostStep::Command { command: c } => c@ == command,
        _ => false,
    }
}

/// What post-processing steps a recipe asks for, as their kinds: permission
/// fixing with its paths, RPATH patching with its style, and the commands.
pub open spec fn post_steps_ok(spec: PostSpec, steps: Seq<PostStep>) -> bool {
    let n_fix: nat = match spec.fix_permissions {
        PostOption::Enabled(b) => if b { 1 } else { 0 },
        PostOption::Paths(_) => 1,
    };
    let n_rpath: nat = if spec.patch_rpaths == RpathPatchOption::Skip { 0 } else { 1 };
    &&& steps.len() == n_fix + n_rpath + spec.commands@.len()
    &&& (n_fix == 1 ==> is_fix_step(steps[0], match spec.fix_permissions {
        PostOption::Paths(p) => string_views(p@),
        _ => Seq::<Seq<char>>::empty(),
    }))
    &&& (n_rpath == 1 ==> is_rpath_step(
        steps[n_fix as int],
        if spec.patch_rpaths == RpathPatchOption::Absolute { RpathStyle::Absolute } else { RpathStyle::Modern },
    ))
    &&& forall|i: int| 0 <= i < spec.commands@.len() ==> is_command_step(#[trigger] steps[n_fix + n_rpath + i], spec.commands@[i]@)
}

/// Builds the source, build and post-processing steps of a recipe.
pub struct BuildPlan {
    /// Environment configuration
    pub environment: EnvironmentConfig,
    /// Source operations
    pub source_steps: Vec<SourceStep>,
    /// Build operations
    pub build_steps: Vec<BuildCommand>,
    /// Post-processing operations
    pub post_steps: Vec<PostStep>,
    /// Whether to install automatically after the build
    pub auto_install: bool,
}

impl BuildPlan {
    /// The source steps: the one that obtains the source (a clone, a
    /// download checked by its checksum's algorithm, or a local copy), then
    /// one per patch, in order.
    pub fn extract_source_steps(source: &SourceSpec) -> (r: Vec<SourceStep>)
        ensures
            source_step_views(r@) == source_steps_of(*source),
    {
        let mut steps: Vec<SourceStep> = Vec::new();
        match &source.method {
            SourceMethod::Git { url, git_ref } => {
                steps.push(SourceStep::Git { url: url.clone(), ref_: git_ref.clone() });
            },
            SourceMethod::Fetch { url, checksum } => match checksum {
                Some(ChecksumAlgorithm::Blake3 { blake3 }) => {
                    steps.push(SourceStep::FetchBlake3 { url: url.clone(), blake3: blake3.clone() });
                },
                Some(ChecksumAlgorithm::Sha256 { sha256 }) => {
                    steps.push(SourceStep::FetchSha256 { url: url.clone(), sha256: sha256.clone() });
                },
                Some(ChecksumAlgorithm::Md5 { md5 }) => {
                    steps.push(SourceStep::FetchMd5 { url: url.clone(), md5: md5.clone() });
                },
                None => {
                    steps.push(SourceStep::Fetch { url: url.clone() });
                },
            },
            SourceMethod::Local { path } => {
                steps.push(SourceStep::Copy { src_path: Some(path.clone()) });
            },
        }
        let ghost patches = string_views(source.patches@);
        assert(source_step_views(steps@) =~= seq![acquisition_step(source.method)] + patches.take(0).map_values(
            |p: Seq<char>| patch_step(p),
        ));
        for i in 0..source.patches.len()
            invariant
                patches == string_views(source.patches@),
                source_step_views(steps@) == seq![acquisition_step(source.method)] + patches.take(i as int).map_values(
                    |p: Seq<char>| patch_step(p),
                ),
        {
            let ghost prev = steps@;
            let p = source.patches[i].clone();
            assert(p@ == patches[i as int]);
            steps.push(SourceStep::ApplyPatch { path: p });
            assert(steps@.last()@ == patch_step(patches[i as int]));
            assert(source_step_views(steps@) =~= source_step_views(prev).push(patch_step(patches[i as int])));
            assert(patches.take(i + 1).map_values(|p: Seq<char>| patch_step(p)) =~= patches.take(i as int).map_values(
                |p: Seq<char>| patch_step(p),
            ).push(patch_step(patches[i as int])));
        }
        assert(patches.take(patches.len() as int) =~= patches);
        steps
    }

    /// The build steps: the named build system with the recipe's arguments,
    /// or the recipe's steps as they are.
    pub fn extract_build_steps(build: BuildSpec) -> (r: Vec<BuildCommand>)
        ensures
            match build {
                BuildSpec::System { system, args } => r@.len() == 1 && command_system(r@[0]) == Some(system)
                    && command_args(r@[0]) == string_views(args@),
                BuildSpec::Steps { steps } => r@ == steps@,
            },
    {
        match build {
            BuildSpec::System { system, args } => {
                let a = copy_args(&args);
                let step = match system {
                    BuildSystemKind::Autotools => BuildCommand::Autotools { args: a },
                    BuildSystemKind::Cmake => BuildCommand::Cmake { args: a },
                    BuildSystemKind::Meson => BuildCommand::Meson { args: a },
                    BuildSystemKind::Cargo => BuildCommand::Cargo { args: a },
                    BuildSystemKind::Go => BuildCommand::Go { args: a },
                    BuildSystemKind::Python => BuildCommand::Python { args: a },
                    BuildSystemKind::Nodejs => BuildCommand::NodeJs { args: a },
                    BuildSystemKind::Make => BuildCommand::Make { args: a },
                };
                let mut r: Vec<BuildCommand> = Vec::new();
                r.push(step);
                r
            },
            BuildSpec::Steps { steps } => steps,
        }
    }

    /// The post-processing steps: permission fixing where asked for (of the
    /// given paths, or of all default paths), RPATH patching in the modern
    /// style by default or the absolute style where asked for and none where
    /// skipped, then the recipe's commands.
    pub fn extract_post_steps(post: &PostSpec) -> (r: Vec<PostStep>)
        ensures
            post_steps_ok(*post, r@),
    {
        let mut steps: Vec<PostStep> = Vec::new();
        match &post.fix_permissions {
            PostOption::Enabled(true) => {
                let empty: Vec<String> = Vec::new();
                assert(string_views(empty@) =~= Seq::<Seq<char>>::empty());
                steps.push(PostStep::FixPermissions { paths: empty });
            },
            PostOption::Paths(paths) => {
                steps.push(PostStep::FixPermissions { paths: copy_args(paths) });
            },
            PostOption::Enabled(false) => {},
        }
        let ghost n_fix = steps@.len();
        match post.patch_rpaths {
            RpathPatchOption::Default => {
                steps.push(PostStep::PatchRpaths { style: RpathStyle::Modern, paths: Vec::new() });
            },
            RpathPatchOption::Absolute => {
                steps.push(PostStep::PatchRpaths { style: RpathStyle::Absolute, paths: Vec::new() });
            },
            RpathPatchOption::Skip => {},
        }
        let ghost base = steps@;
        for i in 0..post.commands.len()
            invariant
                steps@.len() == base.len() + i,
                forall|k: int| 0 <= k < base.len() ==> steps@[k] == base[k],
                forall|k: int| 0 <= k < i ==> is_command_step(#[trigger] steps@[base.len() + k], post.commands@[k]@),
        {
            steps.push(PostStep::Command { command: post.commands[i].clone() });
        }
        proof {
            let n_rpath: nat = if post.patch_rpaths == RpathPatchOption::Skip { 0 } else { 1 };
            assert(base.len() == n_fix + n_rpath);
            if n_fix == 1 {
                assert(steps@[0] == base[0]);
            }
            if n_rpath == 1 {
                assert(steps@[n_fix as int] == base[n_fix as int]);
            }
            assert forall|i: int| 0 <= i < post.commands@.len() implies is_command_step(#[trigger] steps@[n_fix + n_rpath + i], post.commands@[i]@) by {
                assert(is_command_step(steps@[base.len() + i], post.commands@[i]@));
            }
        }
        steps
    }

    /// The whole plan of a recipe.
    pub fn from_parts(
        environment: EnvironmentConfig,
        source: &SourceSpec,
        build: BuildSpec,
        post: &PostSpec,
        auto_install: bool,
    ) -> (r: Self)
        ensures
            source_step_views(r.source_steps@) == source_steps_of(*source),
            match build {
                BuildSpec::System { system, args } => r.build_steps@.len() == 1 && command_system(r.build_steps@[0]) == Some(
                    system,
                ) && command_args(r.build_steps@[0]) == string_views(args@),
                BuildSpec::Steps { steps } => r.build_steps@ == steps@,
            },
            post_steps_ok(*post, r.post_steps@),
            r.environment == environment,
            r.auto_install == auto_install,
    {
        let source_steps = Self::extract_source_steps(source);
        let build_steps = Self::extract_build_steps(build);
        let post_steps = Self::extract_post_steps(post);
        BuildPlan { environment, source_steps, build_steps, post_steps, auto_install }
    }
}

} // verus!
