//! The builder's configuration: time limit, job count, build root, network
//! default, package compression level and validation policy.
use crate::text::{owned, u64_to_string, decimal};
use vstd::prelude::*;

verus! {

/// How strictly recipe commands are validated.
#[derive(Clone, Copy, Debug, PartialEq, Eq, Structural)]
pub enum ValidationMode {
    Strict,
    Lenient,
    Disabled,
}

/// Whether recipe commands may use shell expansion.
#[derive(Clone, Copy, Debug, PartialEq, Eq, Structural)]
pub enum ShellExpansionPolicy {
    Enabled,
    Disabled,
}

/// The settings of the builder.
#[derive(Clone, Debug)]
pub struct BuilderConfig {
    /// Time limit of a build, in seconds
    pub timeout_seconds: u64,
    /// Parallel jobs; zero chooses by the machine
    pub build_jobs: usize,
    /// Directory under which packages build
    pub build_root: String,
    /// Whether builds may use the network unless the recipe says
    pub default_allow_network: bool,
    /// Isolation level unless the recipe says
    pub default_isolation_level: String,
    /// Compression level of packages, by name or number
    pub compression_level: String,
    /// How strictly commands are validated
    pub validation_mode: ValidationMode,
    /// Whether commands may use shell expansion
    pub shell_expansion: ShellExpansionPolicy,
}

impl BuilderConfig {
    /// The default settings: an hour per build, jobs by the machine, builds
    /// under `/opt/pm/build`, no network, default isolation, balanced
    /// compression, strict validation without shell expansion.
    pub fn default_config() -> (r: Self)
        ensures
            r.timeout_seconds == 3600,
            r.build_jobs == 0,
            r.build_root@ == "/opt/pm/build"@,
            !r.default_allow_network,
            r.default_isolation_level@ == "default"@,
            r.compression_level@ == "balanced"@,
            r.validation_mode == ValidationMode::Strict,
            r.shell_expansion == ShellExpansionPolicy::Disabled,
    {
        BuilderConfig {
            timeout_seconds: 3600,
            build_jobs: 0,
            build_root: owned("/opt/pm/build"),
            default_allow_network: false,
            default_isolation_level: owned("default"),
            compression_level: owned("balanced"),
            validation_mode: ValidationMode::Strict,
            shell_expansion: ShellExpansionPolicy::Disabled,
        }
    }
}

impl Default for BuilderConfig {
    fn default() -> (r: Self)
        ensures
            r.timeout_seconds == 3600,
            r.build_jobs == 0,
            r.build_root@ == "/opt/pm/build"@,
            !r.default_allow_network,
            r.default_isolation_level@ == "default"@,
            r.compression_level@ == "balanced"@,
            r.validation_mode == ValidationMode::Strict,
            r.shell_expansion == ShellExpansionPolicy::Disabled,
    {
        BuilderConfig::default_config()
    }
}

/// Build configuration for package building
#[derive(Clone, Debug)]
pub struct BuildConfig {
    /// The builder's settings
    pub config: BuilderConfig,
}

impl Default for BuildConfig {
    fn default() -> (r: Self)
        ensures
            r.config.timeout_seconds == 3600,
            r.config.build_jobs == 0,
            r.config.build_root@ == "/opt/pm/build"@,
            !r.config.default_allow_network,
            r.config.default_isolation_level@ == "default"@,
            r.config.compression_level@ == "balanced"@,
            r.config.validation_mode == ValidationMode::Strict,
            r.config.shell_expansion == ShellExpansionPolicy::Disabled,
    {
        BuildConfig::default_build_config()
    }
}

impl BuildConfig {
    /// A configuration with these settings.
    pub fn new(config: BuilderConfig) -> (r: Self)
        ensures
            r.config == config,
    {
        BuildConfig { config }
    }

    /// A configuration with the default settings.
    pub fn default_build_config() -> (r: Self)
        ensures
            r.config.timeout_seconds == 3600,
            r.config.build_jobs == 0,
            r.config.build_root@ == "/opt/pm/build"@,
            !r.config.default_allow_network,
            r.config.default_isolation_level@ == "default"@,
            r.config.compression_level@ == "balanced"@,
            r.config.validation_mode == ValidationMode::Strict,
            r.config.shell_expansion == ShellExpansionPolicy::Disabled,
    {
        Self::new(BuilderConfig::default_config())
    }

    /// Whether builds may use the network unless the recipe says.
    pub fn default_allow_network(&self) -> (r: bool)
        ensures
            r == self.config.default_allow_network,
    {
        self.config.default_allow_network
    }

    /// The isolation level unless the recipe says.
    pub fn default_isolation_level(&self) -> (r: &str)
        ensures
            r@ == self.config.default_isolation_level@,
    {
        self.config.default_isolation_level.as_str()
    }

    /// The time limit of a build, in seconds.
    pub fn max_build_time(&self) -> (r: Option<u64>)
        ensures
            r == Some(self.config.timeout_seconds),
    {
        Some(self.config.timeout_seconds)
    }

    /// The job count; none where the machine decides.
    pub fn build_jobs(&self) -> (r: Option<usize>)
        ensures
            r == (if self.config.build_jobs == 0 { None } else { Some(self.config.build_jobs) }),
    {
        if self.config.build_jobs == 0 {
            None
        } else {
            Some(self.config.build_jobs)
        }
    }

    /// The build root.
    pub fn build_root(&self) -> (r: &String)
        ensures
            r == &self.config.build_root,
    {
        &self.config.build_root
    }

    /// Whether commands are validated strictly.
    pub fn is_strict_validation(&self) -> (r: bool)
        ensures
            r == (self.config.validation_mode == ValidationMode::Strict),
    {
        matches!(self.config.validation_mode, ValidationMode::Strict)
    }

    /// Whether commands may use shell expansion.
    pub fn allow_shell_expansion(&self) -> (r: bool)
        ensures
            r == (self.config.shell_expansion == ShellExpansionPolicy::Enabled),
    {
        matches!(self.config.shell_expansion, ShellExpansionPolicy::Enabled)
    }

    /// The same configuration with another time limit.
    pub fn with_timeout(self, seconds: u64) -> (r: Self)
        ensures
            r.config == (BuilderConfig { timeout_seconds: seconds, ..self.config }),
    {
        let mut s = self;
        s.config.timeout_seconds = seconds;
        s
    }

    /// The same configuration with another job count.
    pub fn with_jobs(self, jobs: usize) -> (r: Self)
        ensures
            r.config == (BuilderConfig { build_jobs: jobs, ..self.config }),
    {
        let mut s = self;
        s.config.build_jobs = jobs;
        s
    }

    /// The same configuration with another build root.
    pub fn with_build_root(self, path: String) -> (r: Self)
        ensures
            r.config == (BuilderConfig { build_root: path, ..self.config }),
    {
        let mut s = self;
        s.config.build_root = path;
        s
    }

    /// The same configuration with another compression level.
    pub fn with_compression_level(self, level: String) -> (r: Self)
        ensures
            r.config == (BuilderConfig { compression_level: level, ..self.config }),
    {
        let mut s = self;
        s.config.compression_level = level;
        s
    }

    /// The default configuration with fast compression.
    pub fn with_fast_compression() -> (r: Self)
        ensures
            r.config.compression_level@ == "fast"@,
            r.config.timeout_seconds == 3600,
    {
        Self::default_build_config().with_compression_level(owned("fast"))
    }

    /// The default configuration with balanced compression.
    pub fn with_balanced_compression() -> (r: Self)
        ensures
            r.config.compression_level@ == "balanced"@,
            r.config.timeout_seconds == 3600,
    {
        Self::default_build_config().with_compression_level(owned("balanced"))
    }

    /// The default configuration with maximum compression.
    pub fn with_maximum_compression() -> (r: Self)
        ensures
            r.config.compression_level@ == "maximum"@,
            r.config.timeout_seconds == 3600,
    {
        Self::default_build_config().with_compression_level(owned("maximum"))
    }

    /// The default configuration with a numeric compression level.
    pub fn with_custom_compression(level: u8) -> (r: Self)
        ensures
            r.config.compression_level@ == decimal(level as nat),
            r.config.timeout_seconds == 3600,
    {
        Self::default_build_config().with_compression_level(u64_to_string(level as u64))
    }
}

} // verus!
