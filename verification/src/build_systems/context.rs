//! What a build system is handed: the build environment, the directories,
//! the job count and the extra settings of one build.
use crate::cross::CrossCompilationContext;
use crate::environment::build_env::BuildEnvironment;
use crate::string_map::StringMap;
use crate::text::{owned, parse_usize, parse_usize_spec, starts_with, string_views, to_chars};
use vstd::prelude::*;

verus! {

/// Type of compiler cache to use
#[derive(Clone, Copy, Debug, PartialEq, Eq, Structural)]
pub enum CompilerCacheType {
    /// Use ccache
    CCache,
    /// Use sccache
    SCCache,
    /// Use distcc
    DistCC,
}

/// Cache configuration for builds
#[derive(Clone, Debug)]
pub struct CacheConfig {
    /// Whether to use ccache/sccache
    pub use_compiler_cache: bool,
    /// Compiler cache type
    pub compiler_cache_type: CompilerCacheType,
    /// Cache directory
    pub cache_dir: String,
    /// Maximum cache size in bytes
    pub max_size: u64,
    /// Whether to use distributed cache
    pub distributed: bool,
}

/// Build system context containing all necessary information for building
#[derive(Clone, Debug)]
pub struct BuildSystemContext {
    /// Build environment
    pub env: BuildEnvironment,
    /// Source directory
    pub source_dir: String,
    /// Build directory (may be same as source for in-source builds)
    pub build_dir: String,
    /// Installation prefix
    pub prefix: String,
    /// Number of parallel jobs
    pub jobs: usize,
    /// Additional environment variables
    pub extra_env: StringMap,
    /// Whether network access is allowed
    pub network_allowed: bool,
    /// Cache configuration
    pub cache_config: Option<CacheConfig>,
    /// Cross-compilation settings, for a cross build
    pub cross_compilation: Option<CrossCompilationContext>,
}

/// The job count that the environment's `JOBS` gives: its number, else one.
pub open spec fn jobs_from(vars: Map<Seq<char>, Seq<char>>) -> usize {
    if vars.contains_key("JOBS"@) {
        match parse_usize_spec(vars["JOBS"@]) {
            Some(n) => n,
            None => 1,
        }
    } else {
        1
    }
}

/// Whether one of the arguments begins with `prefix`.
pub open spec fn any_starts_with(args: Seq<Seq<char>>, prefix: Seq<char>) -> bool {
    exists|i: int| 0 <= i < args.len() && starts_with(#[trigger] args[i], prefix)
}

/// Whether one of the arguments begins with `prefix`.
pub fn any_arg_starts_with(args: &[String], prefix: &str) -> (r: bool)
    ensures
        r == any_starts_with(string_views(args@), prefix@),
{
    let p = to_chars(prefix);
    for i in 0..args.len()
        invariant
            p@ == prefix@,
            forall|j: int| 0 <= j < i ==> !starts_with(#[trigger] string_views(args@)[j], prefix@),
    {
        let a = to_chars(args[i].as_str());
        if crate::text::starts_with_exec(a.as_slice(), p.as_slice()) {
            assert(starts_with(string_views(args@)[i as int], prefix@));
            return true;
        }
    }
    false
}

impl BuildSystemContext {
    /// The environment and extra variables are well formed.
    pub open spec fn wf(&self) -> bool {
        self.env.wf() && self.extra_env.wf()
    }

    /// A context that builds in the source directory, installs under the
    /// live prefix, with the environment's job count, no network, no cache
    /// and no cross compilation.
    pub fn new(env: BuildEnvironment, source_dir: String) -> (r: Self)
        requires
            env.wf(),
        ensures
            r.wf(),
            r.env == env,
            r.source_dir == source_dir,
            r.build_dir@ == source_dir@,
            r.prefix@ == "/opt/pm/live"@,
            r.jobs == jobs_from(env.env_vars@),
            r.extra_env@ == Map::<Seq<char>, Seq<char>>::empty(),
            !r.network_allowed,
            r.cache_config.is_none(),
            r.cross_compilation.is_none(),
    {
        let jobs = match env.env_vars.get("JOBS") {
            Some(j) => match parse_usize(to_chars(j.as_str()).as_slice()) {
                Some(n) => n,
                None => 1,
            },
            None => 1,
        };
        BuildSystemContext {
            build_dir: source_dir.clone(),
            source_dir,
            env,
            prefix: owned("/opt/pm/live"),
            jobs,
            extra_env: StringMap::new(),
            network_allowed: false,
            cache_config: None,
            cross_compilation: None,
        }
    }

    /// The same context with another build directory.
    pub fn with_build_dir(self, build_dir: String) -> (r: Self)
        ensures
            r == (Self { build_dir, ..self }),
    {
        let mut s = self;
        s.build_dir = build_dir;
        s
    }

    /// The same context with these extra variables.
    pub fn with_extra_env(self, env: StringMap) -> (r: Self)
        ensures
            r == (Self { extra_env: env, ..self }),
    {
        let mut s = self;
        s.extra_env = env;
        s
    }

    /// The same context with network access allowed or not.
    pub fn with_network_allowed(self, allowed: bool) -> (r: Self)
        ensures
            r == (Self { network_allowed: allowed, ..self }),
    {
        let mut s = self;
        s.network_allowed = allowed;
        s
    }

    /// The same context with a cache configuration.
    pub fn with_cache_config(self, config: CacheConfig) -> (r: Self)
        ensures
            r == (Self { cache_config: Some(config), ..self }),
    {
        let mut s = self;
        s.cache_config = Some(config);
        s
    }

    /// The same context, cross-compiling.
    pub fn with_cross_compilation(self, cross: CrossCompilationContext) -> (r: Self)
        ensures
            r == (Self { cross_compilation: Some(cross), ..self }),
    {
        let mut s = self;
        s.cross_compilation = Some(cross);
        s
    }

    /// All variables of the build: the environment's, with the extra ones
    /// over them.
    pub fn get_all_env_vars(&self) -> (r: StringMap)
        requires
            self.wf(),
        ensures
            r.wf(),
            r@ == self.env.env_vars@.union_prefer_right(self.extra_env@),
    {
        let mut vars = self.env.env_vars.duplicate();
        vars.extend_from(&self.extra_env);
        vars
    }
}

} // verus!
