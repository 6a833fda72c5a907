//! Error recovery: which strategy handles a build error and what it advises,
//! and the checkpoints of a build's state.
use crate::errors::{error_text, BuildError};
use crate::paths::{join, path_join};
use crate::string_map::StringMap;
use crate::text::{concat, contains, contains_str, decimal, owned, string_views, to_chars, usize_to_string};
use std::time::Duration;
use vstd::prelude::*;

verus! {

/// `Duration::from_secs`: a span of whole seconds.
pub uninterp spec fn duration_from_secs(secs: u64) -> Duration;

/// Makes a span of whole seconds with `std::time::Duration::from_secs`.
#[verifier::external_body]
fn seconds(secs: u64) -> (r: Duration)
    ensures
        r == duration_from_secs(secs),
{
    Duration::from_secs(secs)
}

/// `Duration` is `Copy`: its `clone` is the value itself.
pub assume_specification[ <Duration as Clone>::clone ](d: &Duration) -> (r: Duration)
    ensures
        r == *d,
;

/// Recovery actions that can be taken
#[derive(Debug, Clone, PartialEq)]
pub enum RecoveryAction {
    /// Retry the operation with new configuration
    Retry { config_changes: StringMap, delay: Duration },
    /// Skip the failing component
    Skip { warning: String },
    /// Use an alternative approach
    Alternative { method: String, config: StringMap },
    /// Clean and retry
    CleanRetry { clean_paths: Vec<String>, delay: Duration },
    /// Abort with detailed explanation
    Abort { message: String, suggestions: Vec<String> },
}

/// How many of a run's tests failed, as the test recovery rates it: under a
/// tenth, under a half, or more.
#[derive(Debug, Clone, Copy, PartialEq, Eq, Structural)]
pub enum TestFailureBand {
    Few,
    Several,
    Many,
}

/// A map of the given pairs, inserted in order.
pub open spec fn map_of(pairs: Seq<(Seq<char>, Seq<char>)>) -> Map<Seq<char>, Seq<char>>
    decreases pairs.len(),
{
    if pairs.len() == 0 {
        Map::empty()
    } else {
        map_of(pairs.drop_last()).insert(pairs.last().0, pairs.last().1)
    }
}

/// Adding a pair adds its key.
pub proof fn lemma_map_of_push(s: Seq<(Seq<char>, Seq<char>)>, x: (Seq<char>, Seq<char>))
    ensures
        map_of(s.push(x)) == map_of(s).insert(x.0, x.1),
        map_of(Seq::<(Seq<char>, Seq<char>)>::empty()) == Map::<Seq<char>, Seq<char>>::empty(),
{
    assert(s.push(x).drop_last() =~= s);
}

fn config2(k1: &str, v1: &str, k2: &str, v2: &str) -> (r: StringMap)
    ensures
        r.wf(),
        r@ == map_of(seq![(k1@, v1@), (k2@, v2@)]),
{
    let mut m = StringMap::new();
    m.insert(owned(k1), owned(v1));
    m.insert(owned(k2), owned(v2));
    proof {
        let e = Seq::<(Seq<char>, Seq<char>)>::empty();
        lemma_map_of_push(e, (k1@, v1@));
        lemma_map_of_push(e.push((k1@, v1@)), (k2@, v2@));
        assert(e.push((k1@, v1@)).push((k2@, v2@)) =~= seq![(k1@, v1@), (k2@, v2@)]);
    }
    m
}

fn three_str(a: &str, b: &str, c: &str) -> (r: Vec<String>)
    ensures
        string_views(r@) == seq![a@, b@, c@],
{
    three(owned(a), b, c)
}

fn four_str(a: &str, b: &str, c: &str, d: &str) -> (r: Vec<String>)
    ensures
        string_views(r@) == seq![a@, b@, c@, d@],
{
    let mut v = three(owned(a), b, c);
    let ghost prev = v@;
    v.push(owned(d));
    assert(string_views(v@) =~= string_views(prev).push(d@));
    assert(string_views(v@) =~= seq![a@, b@, c@, d@]);
    v
}

/// The abort of a strategy asked about an error it does not handle.
pub open spec fn unexpected_abort(a: RecoveryAction) -> bool {
    a matches RecoveryAction::Abort { message, suggestions } && message@ == "Unexpected error type"@
        && suggestions@.len() == 0
}

fn unexpected() -> (r: RecoveryAction)
    ensures
        unexpected_abort(r),
{
    RecoveryAction::Abort { message: owned("Unexpected error type"), suggestions: Vec::new() }
}

/// Dependency conflict recovery strategy
#[derive(Clone, Copy)]
pub struct DependencyConflictRecovery;

/// What the dependency conflict recovery advises.
pub open spec fn dependency_recovery(e: BuildError, a: RecoveryAction) -> bool {
    match e {
        BuildError::DependencyConflict { message } => if contains(message@, "version"@) {
            a matches RecoveryAction::Alternative { method, config } && method@ == "Use compatible dependency version"@
                && config@ == map_of(seq![("dependency_resolution"@, "flexible"@), ("allow_older_versions"@, "true"@)])
        } else {
            a matches RecoveryAction::Abort { message: m, suggestions } && m@ == "Cannot resolve dependency conflict: "@
                + message@ && string_views(suggestions@) == seq![
                "Check dependency version constraints"@,
                "Update recipe with compatible versions"@,
                "Consider using vendored dependencies"@,
            ]
        },
        _ => unexpected_abort(a),
    }
}

impl DependencyConflictRecovery {
    /// Whether this strategy handles the error: dependency conflicts.
    pub fn can_handle(&self, error: &BuildError) -> (r: bool)
        ensures
            r == (*error is DependencyConflict),
    {
        match error {
            BuildError::DependencyConflict { .. } => true,
            _ => false,
        }
    }

    /// A version conflict is retried with flexible resolution; others abort.
    pub fn recover(&self, error: &BuildError) -> (r: RecoveryAction)
        ensures
            dependency_recovery(*error, r),
    {
        match error {
            BuildError::DependencyConflict { message } => {
                if contains_str(to_chars(message.as_str()).as_slice(), "version") {
                    RecoveryAction::Alternative {
                        method: owned("Use compatible dependency version"),
                        config: config2("dependency_resolution", "flexible", "allow_older_versions", "true"),
                    }
                } else {
                    RecoveryAction::Abort {
                        message: concat("Cannot resolve dependency conflict: ", message.as_str()),
                        suggestions: three_str("Check dependency version constraints", "Update recipe with compatible versions", "Consider using vendored dependencies"),
                    }
                }
            },
            _ => unexpected(),
        }
    }

    /// The strategy's description.
    pub fn description(&self) -> (r: &'static str)
        ensures
            r@ == "Dependency conflict recovery"@,
    {
        "Dependency conflict recovery"
    }
}

/// Compilation failure recovery strategy
#[derive(Clone, Copy)]
pub struct CompilationFailedRecovery;

/// What the compilation recovery advises for a compiler message: fewer jobs
/// after running out of memory, extra libraries for unresolved symbols,
/// other flags for compiler trouble, else an abort with advice.
pub open spec fn compilation_recovery(message: Seq<char>, a: RecoveryAction) -> bool {
    if contains(message, "out of memory"@) || contains(message, "OOM"@) {
        a matches RecoveryAction::Retry { config_changes, delay } && delay == duration_from_secs(5)
            && config_changes@ == map_of(seq![("parallel_jobs"@, "1"@), ("optimization_level"@, "0"@)])
    } else if contains(message, "undefined reference"@) || contains(message, "unresolved symbol"@) {
        a matches RecoveryAction::Alternative { method, config } && method@ == "Add missing libraries"@
            && config@ == map_of(seq![("link_flags"@, "-lm -ldl -lpthread"@), ("pkg_config_path"@, "/opt/pm/lib/pkgconfig"@)])
    } else if contains(message, "compiler"@) || contains(message, "cc1"@) {
        a matches RecoveryAction::Alternative { method, config } && method@ == "Try different compiler flags"@
            && config@ == map_of(seq![("cflags"@, "-O2 -fPIC"@), ("cxxflags"@, "-O2 -fPIC -std=c++17"@)])
    } else {
        a matches RecoveryAction::Abort { message: m, suggestions } && m@ == "Compilation failed: "@ + message
            && string_views(suggestions@) == seq![
            "Check build dependencies are installed"@,
            "Review compiler output for specific errors"@,
            "Try building with verbose output enabled"@,
            "Check if patches are needed for this platform"@,
        ]
    }
}

impl CompilationFailedRecovery {
    /// Whether this strategy handles the error: compilation failures.
    pub fn can_handle(&self, error: &BuildError) -> (r: bool)
        ensures
            r == (*error is CompilationFailed || *error is CompileFailed),
    {
        match error {
            BuildError::CompilationFailed { .. } => true,
            BuildError::CompileFailed { .. } => true,
            _ => false,
        }
    }

    /// Advice from the compiler's message.
    pub fn recover(&self, error: &BuildError) -> (r: RecoveryAction)
        ensures
            match *error {
                BuildError::CompilationFailed { message } => compilation_recovery(message@, r),
                BuildError::CompileFailed { message } => compilation_recovery(message@, r),
                _ => unexpected_abort(r),
            },
    {
        let message = match error {
            BuildError::CompilationFailed { message } => message,
            BuildError::CompileFailed { message } => message,
            _ => {
                return unexpected();
            },
        };
        let m = to_chars(message.as_str());
        let m = m.as_slice();
        if contains_str(m, "out of memory") || contains_str(m, "OOM") {
            RecoveryAction::Retry {
                config_changes: config2("parallel_jobs", "1", "optimization_level", "0"),
                delay: seconds(5),
            }
        } else if contains_str(m, "undefined reference") || contains_str(m, "unresolved symbol") {
            RecoveryAction::Alternative {
                method: owned("Add missing libraries"),
                config: config2("link_flags", "-lm -ldl -lpthread", "pkg_config_path", "/opt/pm/lib/pkgconfig"),
            }
        } else if contains_str(m, "compiler") || contains_str(m, "cc1") {
            RecoveryAction::Alternative {
                method: owned("Try different compiler flags"),
                config: config2("cflags", "-O2 -fPIC", "cxxflags", "-O2 -fPIC -std=c++17"),
            }
        } else {
            RecoveryAction::Abort {
                message: concat("Compilation failed: ", message.as_str()),
                suggestions: four_str("Check build dependencies are installed", "Review compiler output for specific errors", "Try building with verbose output enabled", "Check if patches are needed for this platform"),
            }
        }
    }

    /// The strategy's description.
    pub fn description(&self) -> (r: &'static str)
        ensures
            r@ == "Compilation failure recovery"@,
    {
        "Compilation failure recovery"
    }
}

/// Test failure recovery strategy
#[derive(Clone, Copy)]
pub struct TestsFailedRecovery;

/// What the test recovery advises: few failures are skipped with a warning,
/// some are retried serially with a longer timeout, many abort.
pub open spec fn tests_recovery(passed: usize, total: usize, band: TestFailureBand, package: Seq<char>, a: RecoveryAction) -> bool {
    match band {
        TestFailureBand::Few => a matches RecoveryAction::Skip { warning } && warning@ == "Skipping test failures ("@
            + decimal(passed as nat) + "/"@ + decimal(total as nat) + " passed) for "@ + package,
        TestFailureBand::Several => a matches RecoveryAction::Retry { config_changes, delay } && delay
            == duration_from_secs(2) && config_changes@ == map_of(seq![("test_timeout"@, "300"@), ("test_parallel"@, "false"@)]),
        TestFailureBand::Many => a matches RecoveryAction::Abort { message, suggestions } && message@
            == "Too many test failures: "@ + decimal(passed as nat) + "/"@ + decimal(total as nat) + " passed"@
            && string_views(suggestions@) == seq![
            "Review test output for specific failures"@,
            "Check if tests require specific environment setup"@,
            "Consider disabling flaky tests in recipe"@,
        ],
    }
}

impl TestsFailedRecovery {
    /// Whether this strategy handles the error: failed tests.
    pub fn can_handle(&self, error: &BuildError) -> (r: bool)
        ensures
            r == (*error is TestsFailed),
    {
        match error {
            BuildError::TestsFailed { .. } => true,
            _ => false,
        }
    }

    /// Advice from how many tests failed (`band`, the share of failures) for
    /// the package named `package`.
    pub fn recover(&self, error: &BuildError, package: &str, band: TestFailureBand) -> (r: RecoveryAction)
        ensures
            match *error {
                BuildError::TestsFailed { passed, total } => tests_recovery(passed, total, band, package@, r),
                _ => unexpected_abort(r),
            },
    {
        match error {
            BuildError::TestsFailed { passed, total } => {
                let ps = usize_to_string(*passed);
                let ts = usize_to_string(*total);
                match band {
                    TestFailureBand::Few => {
                        let a = concat("Skipping test failures (", ps.as_str());
                        let b = concat(a.as_str(), "/");
                        let c = concat(b.as_str(), ts.as_str());
                        let d = concat(c.as_str(), " passed) for ");
                        RecoveryAction::Skip { warning: concat(d.as_str(), package) }
                    },
                    TestFailureBand::Several => RecoveryAction::Retry {
                        config_changes: config2("test_timeout", "300", "test_parallel", "false"),
                        delay: seconds(2),
                    },
                    TestFailureBand::Many => {
                        let a = concat("Too many test failures: ", ps.as_str());
                        let b = concat(a.as_str(), "/");
                        let c = concat(b.as_str(), ts.as_str());
                        RecoveryAction::Abort {
                            message: concat(c.as_str(), " passed"),
                            suggestions: three_str("Review test output for specific failures", "Check if tests require specific environment setup", "Consider disabling flaky tests in recipe"),
                        }
                    },
                }
            },
            _ => unexpected(),
        }
    }

    /// The strategy's description.
    pub fn description(&self) -> (r: &'static str)
        ensures
            r@ == "Test failure recovery"@,
    {
        "Test failure recovery"
    }
}

/// Network error recovery strategy
#[derive(Clone, Copy)]
pub struct NetworkErrorRecovery {
    max_retries: usize,
}

impl NetworkErrorRecovery {
    /// Create new network error recovery: three retries.
    pub fn new() -> (r: Self)
        ensures
            r.retries() == 3,
    {
        NetworkErrorRecovery { max_retries: 3 }
    }

    /// The number of fetch retries it asks for.
    pub closed spec fn retries(&self) -> usize {
        self.max_retries
    }

    /// Whether this strategy handles the error: failed fetches and denied or
    /// disabled network access.
    pub fn can_handle(&self, error: &BuildError) -> (r: bool)
        ensures
            r == (*error is FetchFailed || *error is NetworkAccessDenied || *error is NetworkDisabled),
    {
        match error {
            BuildError::FetchFailed { .. } => true,
            BuildError::NetworkAccessDenied => true,
            BuildError::NetworkDisabled { .. } => true,
            _ => false,
        }
    }

    /// A failed fetch is retried with mirrors and a longer timeout; without
    /// network access the local cache is used.
    pub fn recover(&self, error: &BuildError) -> (r: RecoveryAction)
        ensures
            match *error {
                BuildError::FetchFailed { .. } => r matches RecoveryAction::Retry { config_changes, delay }
                    && delay == duration_from_secs(10) && config_changes@ == map_of(seq![
                    ("fetch_timeout"@, "600"@),
                    ("fetch_retries"@, decimal(self.retries() as nat)),
                    ("use_mirrors"@, "true"@),
                ]),
                BuildError::NetworkAccessDenied | BuildError::NetworkDisabled { .. } => r matches RecoveryAction::Alternative {
                    method,
                    config,
                } && method@ == "Use local cache or offline mode"@ && config@ == map_of(seq![
                    ("offline_mode"@, "true"@),
                    ("use_local_cache"@, "true"@),
                ]),
                _ => unexpected_abort(r),
            },
    {
        match error {
            BuildError::FetchFailed { .. } => {
                let mut m = StringMap::new();
                m.insert(owned("fetch_timeout"), owned("600"));
                m.insert(owned("fetch_retries"), usize_to_string(self.max_retries));
                m.insert(owned("use_mirrors"), owned("true"));
                proof {
                    let e = Seq::<(Seq<char>, Seq<char>)>::empty();
                    let x1 = ("fetch_timeout"@, "600"@);
                    let x2 = ("fetch_retries"@, decimal(self.max_retries as nat));
                    let x3 = ("use_mirrors"@, "true"@);
                    lemma_map_of_push(e, x1);
                    lemma_map_of_push(e.push(x1), x2);
                    lemma_map_of_push(e.push(x1).push(x2), x3);
                    assert(e.push(x1).push(x2).push(x3) =~= seq![x1, x2, x3]);
                }
                RecoveryAction::Retry { config_changes: m, delay: seconds(10) }
            },
            BuildError::NetworkAccessDenied => RecoveryAction::Alternative {
                method: owned("Use local cache or offline mode"),
                config: config2("offline_mode", "true", "use_local_cache", "true"),
            },
            BuildError::NetworkDisabled { .. } => RecoveryAction::Alternative {
                method: owned("Use local cache or offline mode"),
                config: config2("offline_mode", "true", "use_local_cache", "true"),
            },
            _ => unexpected(),
        }
    }

    /// The strategy's description.
    pub fn description(&self) -> (r: &'static str)
        ensures
            r@ == "Network error recovery"@,
    {
        "Network error recovery"
    }
}

/// Disk space recovery strategy
#[derive(Clone, Copy)]
pub struct DiskSpaceRecovery;

/// A generic failure whose message speaks of disk space.
pub open spec fn is_disk_space_error(e: BuildError) -> bool {
    e matches BuildError::Failed { message } && (contains(message@, "space"@) || contains(message@, "disk full"@)
        || contains(message@, "ENOSPC"@))
}

impl DiskSpaceRecovery {
    /// Whether this strategy handles the error: failures for want of space.
    pub fn can_handle(&self, error: &BuildError) -> (r: bool)
        ensures
            r == is_disk_space_error(*error),
    {
        match error {
            BuildError::Failed { message } => {
                let m = to_chars(message.as_str());
                contains_str(m.as_slice(), "space") || contains_str(m.as_slice(), "disk full") || contains_str(
                    m.as_slice(),
                    "ENOSPC",
                )
            },
            _ => false,
        }
    }

    /// Cleans the build's scratch directories (under `output_dir`, and the
    /// package's directory in `/tmp`) and retries.
    pub fn recover(&self, error: &BuildError, package: &str, output_dir: &str) -> (r: RecoveryAction)
        ensures
            match *error {
                BuildError::Failed { .. } => r matches RecoveryAction::CleanRetry { clean_paths, delay } && delay
                    == duration_from_secs(5) && string_views(clean_paths@) == seq![
                    path_join(output_dir@, "build"@),
                    path_join(output_dir@, "tmp"@),
                    path_join("/tmp"@, "sps2-build-"@ + package@),
                ],
                _ => unexpected_abort(r),
            },
    {
        match error {
            BuildError::Failed { .. } => {
                let mut paths: Vec<String> = Vec::new();
                paths.push(join(output_dir, "build"));
                paths.push(join(output_dir, "tmp"));
                paths.push(join("/tmp", concat("sps2-build-", package).as_str()));
                assert(string_views(paths@) =~= seq![
                    path_join(output_dir@, "build"@),
                    path_join(output_dir@, "tmp"@),
                    path_join("/tmp"@, "sps2-build-"@ + package@),
                ]);
                RecoveryAction::CleanRetry { clean_paths: paths, delay: seconds(5) }
            },
            _ => unexpected(),
        }
    }

    /// The strategy's description.
    pub fn description(&self) -> (r: &'static str)
        ensures
            r@ == "Disk space recovery"@,
    {
        "Disk space recovery"
    }
}

/// The advice for an error that no strategy handles: an abort naming the
/// error, with suggestions for missing dependencies, failed patches, failed
/// configuration and timeouts.
pub open spec fn detailed_abort(e: BuildError, a: RecoveryAction) -> bool {
    a matches RecoveryAction::Abort { message, suggestions } && message@ == "Build failed: "@ + error_text(e)
        && string_views(suggestions@) == match e {
        BuildError::MissingBuildDep { name } => seq![
            "Install missing dependency: "@ + name@,
            "Update recipe build dependencies"@,
            "Check if dependency name has changed"@,
        ],
        BuildError::PatchFailed { patch } => seq![
            "Review patch file: "@ + patch@,
            "Check if patch is applicable to this version"@,
            "Try applying patch manually to debug"@,
        ],
        BuildError::ConfigureFailed { message } => seq![
            "Check configure log for details"@,
            "Common issue: "@ + message@,
            "Ensure all required tools are in PATH"@,
        ],
        BuildError::Timeout { seconds } => seq![
            "Build exceeded "@ + decimal(seconds as nat) + "s timeout"@,
            "Consider increasing timeout in recipe"@,
            "Check for infinite loops or hanging processes"@,
        ],
        _ => seq!["Check build logs for more details"@],
    }
}

fn three(a: String, b: &str, c: &str) -> (r: Vec<String>)
    ensures
        string_views(r@) == seq![a@, b@, c@],
{
    let mut v: Vec<String> = Vec::new();
    v.push(a);
    v.push(owned(b));
    v.push(owned(c));
    assert(string_views(v@) =~= seq![a@, b@, c@]);
    v
}

/// Create detailed abort action with suggestions
pub fn create_detailed_abort(error: &BuildError) -> (r: RecoveryAction)
    ensures
        detailed_abort(*error, r),
{
    let suggestions = match error {
        BuildError::MissingBuildDep { name } => three(
            concat("Install missing dependency: ", name.as_str()),
            "Update recipe build dependencies",
            "Check if dependency name has changed",
        ),
        BuildError::PatchFailed { patch } => three(
            concat("Review patch file: ", patch.as_str()),
            "Check if patch is applicable to this version",
            "Try applying patch manually to debug",
        ),
        BuildError::ConfigureFailed { message } => {
            let mut v: Vec<String> = Vec::new();
            v.push(owned("Check configure log for details"));
            v.push(concat("Common issue: ", message.as_str()));
            v.push(owned("Ensure all required tools are in PATH"));
            assert(string_views(v@) =~= seq![
                "Check configure log for details"@,
                "Common issue: "@ + message@,
                "Ensure all required tools are in PATH"@,
            ]);
            v
        },
        BuildError::Timeout { seconds } => {
            let a = concat("Build exceeded ", crate::text::u64_to_string(*seconds).as_str());
            three(
                concat(a.as_str(), "s timeout"),
                "Consider increasing timeout in recipe",
                "Check for infinite loops or hanging processes",
            )
        },
        _ => {
            let mut v: Vec<String> = Vec::new();
            v.push(owned("Check build logs for more details"));
            assert(string_views(v@) =~= seq!["Check build logs for more details"@]);
            v
        },
    };
    RecoveryAction::Abort { message: concat("Build failed: ", error.describe().as_str()), suggestions }
}

/// Build error handler: the default recovery strategies and a retry limit.
pub struct BuildErrorHandler {
    max_retries: usize,
    retry_delay_secs: u64,
    checkpoint_manager: CheckpointManager,
}

/// What the handler advises for an error at a given attempt: an abort once
/// the retries are used up; else the advice of the strategy that handles the
/// error; else a detailed abort.
pub open spec fn handled(
    e: BuildError,
    attempt: usize,
    max_retries: usize,
    package: Seq<char>,
    output_dir: Seq<char>,
    band: TestFailureBand,
    a: RecoveryAction,
) -> bool {
    if attempt >= max_retries {
        a matches RecoveryAction::Abort { message, suggestions } && message@ == "Max retries ("@ + decimal(
            max_retries as nat,
        ) + ") exceeded"@ && string_views(suggestions@) == seq!["Manual intervention required"@]
    } else {
        match e {
            BuildError::DependencyConflict { .. } => dependency_recovery(e, a),
            BuildError::CompilationFailed { message } => compilation_recovery(message@, a),
            BuildError::CompileFailed { message } => compilation_recovery(message@, a),
            BuildError::TestsFailed { passed, total } => tests_recovery(passed, total, band, package, a),
            BuildError::FetchFailed { .. } => a matches RecoveryAction::Retry { config_changes, delay } && delay
                == duration_from_secs(10) && config_changes@ == map_of(seq![
                ("fetch_timeout"@, "600"@),
                ("fetch_retries"@, "3"@),
                ("use_mirrors"@, "true"@),
            ]),
            BuildError::NetworkAccessDenied | BuildError::NetworkDisabled { .. } => a matches RecoveryAction::Alternative {
                method,
                config,
            } && method@ == "Use local cache or offline mode"@ && config@ == map_of(seq![
                ("offline_mode"@, "true"@),
                ("use_local_cache"@, "true"@),
            ]),
            _ => if is_disk_space_error(e) {
                a matches RecoveryAction::CleanRetry { clean_paths, delay } && delay == duration_from_secs(5)
                    && string_views(clean_paths@) == seq![
                    path_join(output_dir, "build"@),
                    path_join(output_dir, "tmp"@),
                    path_join("/tmp"@, "sps2-build-"@ + package),
                ]
            } else {
                detailed_abort(e, a)
            },
        }
    }
}

impl BuildErrorHandler {
    /// Create new build error handler: three retries, five seconds apart.
    pub fn new(checkpoint_dir: String) -> (r: Self)
        ensures
            r.max_retries() == 3,
            r.retry_delay_secs() == 5,
    {
        BuildErrorHandler { max_retries: 3, retry_delay_secs: 5, checkpoint_manager: CheckpointManager::new(checkpoint_dir) }
    }

    /// The retry limit.
    pub closed spec fn max_retries(&self) -> usize {
        self.max_retries
    }

    /// The delay between retries, in seconds.
    pub closed spec fn retry_delay_secs(&self) -> u64 {
        self.retry_delay_secs
    }

    /// Set maximum retry attempts
    pub fn with_max_retries(self, max_retries: usize) -> (r: Self)
        ensures
            r.max_retries() == max_retries,
            r.retry_delay_secs() == self.retry_delay_secs(),
    {
        let mut s = self;
        s.max_retries = max_retries;
        s
    }

    /// Set the retry delay, in seconds
    pub fn with_retry_delay(self, secs: u64) -> (r: Self)
        ensures
            r.retry_delay_secs() == secs,
            r.max_retries() == self.max_retries(),
    {
        let mut s = self;
        s.retry_delay_secs = secs;
        s
    }

    /// The advice for a build error at the given attempt (`band` rates a
    /// test failure, `package` and `output_dir` are the build's).
    pub fn handle_error(
        &self,
        error: &BuildError,
        package: &str,
        output_dir: &str,
        attempt: usize,
        band: TestFailureBand,
    ) -> (r: RecoveryAction)
        ensures
            handled(*error, attempt, self.max_retries(), package@, output_dir@, band, r),
    {
        if attempt >= self.max_retries {
            let a = concat("Max retries (", usize_to_string(self.max_retries).as_str());
            let mut s: Vec<String> = Vec::new();
            s.push(owned("Manual intervention required"));
            assert(string_views(s@) =~= seq!["Manual intervention required"@]);
            return RecoveryAction::Abort { message: concat(a.as_str(), ") exceeded"), suggestions: s };
        }
        let dep = DependencyConflictRecovery;
        if dep.can_handle(error) {
            return dep.recover(error);
        }
        let comp = CompilationFailedRecovery;
        if comp.can_handle(error) {
            return comp.recover(error);
        }
        let tests = TestsFailedRecovery;
        if tests.can_handle(error) {
            return tests.recover(error, package, band);
        }
        let net = NetworkErrorRecovery::new();
        if net.can_handle(error) {
            proof {
                reveal_strlit("3");
                assert(decimal(3nat) == "3"@);
            }
            return net.recover(error);
        }
        let disk = DiskSpaceRecovery;
        if disk.can_handle(error) {
            return disk.recover(error, package, output_dir);
        }
        create_detailed_abort(error)
    }
}

/// Build state captured at checkpoint
#[derive(Debug, Clone)]
pub struct BuildState {
    /// Environment variables
    pub env_vars: StringMap,
    /// Completed steps
    pub completed_steps: Vec<String>,
    /// Generated artifacts
    pub artifacts: Vec<String>,
    /// Build configuration
    pub config: StringMap,
}

/// Build checkpoint for recovery
#[derive(Debug, Clone)]
pub struct BuildCheckpoint {
    /// Checkpoint ID
    pub id: String,
    /// Build stage name
    pub stage: String,
    /// Timestamp of checkpoint, in seconds since the epoch
    pub timestamp: u64,
    /// Build state at checkpoint
    pub state: BuildState,
    /// Checkpoint metadata
    pub metadata: StringMap,
}

/// Checkpoint manager for build recovery
#[derive(Clone)]
pub struct CheckpointManager {
    checkpoint_dir: String,
    checkpoints: Vec<BuildCheckpoint>,
    max_checkpoints: usize,
}

/// The last checkpoint of a stage with the greatest timestamp, among the
/// first `k`: its index, or -1.
pub open spec fn latest_of(cs: Seq<BuildCheckpoint>, stage: Seq<char>, k: nat) -> int
    decreases k,
{
    if k == 0 {
        -1
    } else {
        let prev = latest_of(cs, stage, (k - 1) as nat);
        let c = cs[k - 1];
        if c.stage@ == stage && (prev < 0 || cs[prev].timestamp <= c.timestamp) {
            k - 1
        } else {
            prev
        }
    }
}

/// Where a checkpoint that already sorted ones come before it goes among
/// the first `k` of them: after the last one not newer than it.
pub open spec fn time_slot(s: Seq<BuildCheckpoint>, c: BuildCheckpoint, k: nat) -> nat
    decreases k,
{
    if k == 0 {
        0
    } else if s[k - 1].timestamp <= c.timestamp {
        k
    } else {
        time_slot(s, c, (k - 1) as nat)
    }
}

/// The checkpoints ordered by timestamp, those with equal timestamps in the
/// order they were recorded.
pub open spec fn sorted_by_time(s: Seq<BuildCheckpoint>) -> Seq<BuildCheckpoint>
    decreases s.len(),
{
    if s.len() == 0 {
        seq![]
    } else {
        let rest = sorted_by_time(s.drop_last());
        rest.insert(time_slot(rest, s.last(), rest.len()) as int, s.last())
    }
}

/// How many checkpoints exceed the maximum.
pub open spec fn excess(n: nat, max: nat) -> nat {
    if n > max { (n - max) as nat } else { 0 }
}

/// The file a checkpoint is stored in: `<dir>/<id>.json`.
pub open spec fn checkpoint_file(dir: Seq<char>, c: BuildCheckpoint) -> Seq<char> {
    crate::paths::path_join_full(dir, c.id@ + ".json"@)
}

/// Timestamps never decrease along `s`.
pub open spec fn time_ordered(s: Seq<BuildCheckpoint>) -> bool {
    forall|i: int, j: int| 0 <= i <= j < s.len() ==> s[i].timestamp <= s[j].timestamp
}

/// Sorting by time orders the checkpoints by timestamp and keeps each of
/// them.
pub proof fn lemma_sorted_by_time(s: Seq<BuildCheckpoint>)
    ensures
        time_ordered(sorted_by_time(s)),
        sorted_by_time(s).len() == s.len(),
        forall|c: BuildCheckpoint| #[trigger] sorted_by_time(s).contains(c) <==> s.contains(c),
    decreases s.len(),
{
    if s.len() > 0 {
        let s0 = s.drop_last();
        lemma_sorted_by_time(s0);
        let rest = sorted_by_time(s0);
        let c = s.last();
        let p = time_slot(rest, c, rest.len());
        lemma_time_slot(rest, c, rest.len());
        let r = rest.insert(p as int, c);
        assert(r == sorted_by_time(s));
        assert forall|i: int, j: int| 0 <= i <= j < r.len() implies r[i].timestamp <= r[j].timestamp by {
            if j < p {
            } else if j == p {
                if i < p {
                    assert(r[i] == rest[i]);
                    assert(rest[p - 1].timestamp <= c.timestamp);
                }
            } else if i < p {
                assert(r[i] == rest[i]);
                assert(r[j] == rest[j - 1]);
            } else if i == p {
                assert(r[j] == rest[j - 1]);
                assert(rest[p as int].timestamp > c.timestamp);
            } else {
                assert(r[i] == rest[i - 1]);
                assert(r[j] == rest[j - 1]);
            }
        }
        assert forall|x: BuildCheckpoint| #[trigger] r.contains(x) <==> s.contains(x) by {
            if r.contains(x) {
                let i = choose|i: int| 0 <= i < r.len() && r[i] == x;
                if i < p {
                    assert(rest[i] == x);
                    assert(rest.contains(x));
                    let k = choose|k: int| 0 <= k < s0.len() && s0[k] == x;
                    assert(s[k] == x);
                } else if i == p {
                    assert(s[s.len() - 1] == x);
                } else {
                    assert(rest[i - 1] == x);
                    assert(rest.contains(x));
                    let k = choose|k: int| 0 <= k < s0.len() && s0[k] == x;
                    assert(s[k] == x);
                }
            }
            if s.contains(x) {
                let k = choose|k: int| 0 <= k < s.len() && s[k] == x;
                if k == s.len() - 1 {
                    assert(r[p as int] == x);
                } else {
                    assert(s0[k] == x);
                    assert(s0.contains(x));
                    assert(rest.contains(x));
                    let i = choose|i: int| 0 <= i < rest.len() && rest[i] == x;
                    if i < p {
                        assert(r[i] == x);
                    } else {
                        assert(r[i + 1] == x);
                    }
                }
            }
        }
    }
}

/// The slot lies after every checkpoint not newer than the inserted one at
/// its end, and before a newer one where one follows it.
proof fn lemma_time_slot(s: Seq<BuildCheckpoint>, c: BuildCheckpoint, k: nat)
    requires
        k <= s.len(),
        time_ordered(s),
    ensures
        time_slot(s, c, k) <= k,
        time_slot(s, c, k) > 0 ==> s[time_slot(s, c, k) - 1].timestamp <= c.timestamp,
        time_slot(s, c, k) < k ==> s[time_slot(s, c, k) as int].timestamp > c.timestamp,
    decreases k,
{
    if k > 0 && s[k - 1].timestamp > c.timestamp {
        lemma_time_slot(s, c, (k - 1) as nat);
    }
}

impl CheckpointManager {
    /// Create new checkpoint manager: no checkpoints, at most ten kept.
    pub fn new(checkpoint_dir: String) -> (r: Self)
        ensures
            r.checkpoints().len() == 0,
            r.max_checkpoints() == 10,
            r.dir() == checkpoint_dir,
    {
        CheckpointManager { checkpoint_dir, checkpoints: Vec::new(), max_checkpoints: 10 }
    }

    /// The checkpoints, oldest recorded first.
    pub closed spec fn checkpoints(&self) -> Seq<BuildCheckpoint> {
        self.checkpoints@
    }

    /// The number of checkpoints kept.
    pub closed spec fn max_checkpoints(&self) -> usize {
        self.max_checkpoints
    }

    /// The checkpoint directory.
    pub closed spec fn dir(&self) -> String {
        self.checkpoint_dir
    }

    /// Records a checkpoint that was written to disk; where that makes more
    /// than the maximum, cleans old checkpoints and returns the files of
    /// those dropped.
    pub fn add_checkpoint(&mut self, checkpoint: BuildCheckpoint) -> (r: Vec<String>)
        ensures
            old(self).checkpoints().len() + 1 <= old(self).max_checkpoints() ==> {
                &&& final(self).checkpoints() == old(self).checkpoints().push(checkpoint)
                &&& r@.len() == 0
            },
            old(self).checkpoints().len() + 1 > old(self).max_checkpoints() ==> ({
                let sorted = sorted_by_time(old(self).checkpoints().push(checkpoint));
                let k = excess(sorted.len(), old(self).max_checkpoints() as nat) as int;
                &&& final(self).checkpoints() == sorted.skip(k)
                &&& string_views(r@) == sorted.take(k).map_values(|c: BuildCheckpoint| checkpoint_file(old(self).dir()@, c))
            }),
            final(self).max_checkpoints() == old(self).max_checkpoints(),
            final(self).dir() == old(self).dir(),
    {
        self.checkpoints.push(checkpoint);
        if self.checkpoints.len() > self.max_checkpoints {
            self.clean_old_checkpoints()
        } else {
            Vec::new()
        }
    }

    /// Cleans old checkpoints: orders them by timestamp (equal ones as they
    /// were recorded) and drops the oldest beyond the maximum; the files of
    /// the dropped ones, oldest first, are returned for removal.
    pub fn clean_old_checkpoints(&mut self) -> (r: Vec<String>)
        ensures
            ({
                let sorted = sorted_by_time(old(self).checkpoints());
                let k = excess(sorted.len(), old(self).max_checkpoints() as nat) as int;
                &&& final(self).checkpoints() == sorted.skip(k)
                &&& string_views(r@) == sorted.take(k).map_values(|c: BuildCheckpoint| checkpoint_file(old(self).dir()@, c))
            }),
            final(self).max_checkpoints() == old(self).max_checkpoints(),
            final(self).dir() == old(self).dir(),
    {
        let ghost orig = self.checkpoints@;
        let mut pending: Vec<BuildCheckpoint> = Vec::new();
        std::mem::swap(&mut pending, &mut self.checkpoints);
        let mut sorted: Vec<BuildCheckpoint> = Vec::new();
        let n = pending.len();
        let mut i: usize = 0;
        while i < n
            invariant
                n == orig.len(),
                i <= n,
                pending@ == orig.skip(i as int),
                sorted@ == sorted_by_time(orig.take(i as int)),
            decreases n - i,
        {
            let c = pending.remove(0);
            assert(orig.take(i + 1).drop_last() =~= orig.take(i as int));
            assert(orig.take(i + 1).last() == c);
            assert(pending@ =~= orig.skip(i + 1));
            let ghost rest = sorted@;
            let mut p = sorted.len();
            while p > 0 && sorted[p - 1].timestamp > c.timestamp
                invariant
                    p <= rest.len(),
                    sorted@ == rest,
                    time_slot(rest, c, rest.len()) == time_slot(rest, c, p as nat),
                decreases p,
            {
                p = p - 1;
            }
            sorted.insert(p, c);
            i = i + 1;
        }
        assert(orig.take(n as int) =~= orig);
        let k: usize = if sorted.len() > self.max_checkpoints { sorted.len() - self.max_checkpoints } else { 0 };
        let kept = sorted.split_off(k);
        let mut files: Vec<String> = Vec::new();
        for j in 0..sorted.len()
            invariant
                k == sorted@.len(),
                string_views(files@) == sorted@.take(j as int).map_values(|c: BuildCheckpoint| checkpoint_file(self.checkpoint_dir@, c)),
        {
            let ghost prev = files@;
            let name = concat(sorted[j].id.as_str(), ".json");
            files.push(crate::paths::join_full(self.checkpoint_dir.as_str(), name.as_str()));
            assert(string_views(files@) =~= string_views(prev).push(checkpoint_file(self.checkpoint_dir@, sorted@[j as int])));
            assert(sorted@.take(j + 1) =~= sorted@.take(j as int).push(sorted@[j as int]));
        }
        assert(sorted@.take(k as int) =~= sorted@);
        self.checkpoints = kept;
        files
    }

    /// List all checkpoints
    pub fn list_checkpoints(&self) -> (r: &[BuildCheckpoint])
        ensures
            r@ == self.checkpoints(),
    {
        self.checkpoints.as_slice()
    }

    /// Get latest checkpoint for stage: of the checkpoints of that stage, the
    /// one with the greatest timestamp (the last recorded among equals).
    pub fn get_latest_checkpoint(&self, stage: &str) -> (r: Option<&BuildCheckpoint>)
        ensures
            ({
                let i = latest_of(self.checkpoints(), stage@, self.checkpoints().len());
                match r {
                    Some(c) => 0 <= i && *c == self.checkpoints()[i],
                    None => i < 0,
                }
            }),
    {
        let mut best: Option<usize> = None;
        for k in 0..self.checkpoints.len()
            invariant
                match best {
                    Some(b) => b < k && b as int == latest_of(self.checkpoints@, stage@, k as nat),
                    None => latest_of(self.checkpoints@, stage@, k as nat) < 0,
                },
        {
            let c = &self.checkpoints[k];
            if c.stage == owned(stage) {
                match best {
                    Some(b) => {
                        if self.checkpoints[b].timestamp <= c.timestamp {
                            best = Some(k);
                        }
                    },
                    None => {
                        best = Some(k);
                    },
                }
            }
        }
        match best {
            Some(b) => Some(&self.checkpoints[b]),
            None => None,
        }
    }
}

/// The latest checkpoint of a stage is of that stage, and no checkpoint of
/// that stage is newer.
pub proof fn lemma_latest_is_newest(cs: Seq<BuildCheckpoint>, stage: Seq<char>, k: nat)
    requires
        k <= cs.len(),
    ensures
        latest_of(cs, stage, k) >= 0 ==> {
            let i = latest_of(cs, stage, k);
            &&& i < k
            &&& cs[i].stage@ == stage
            &&& forall|j: int| 0 <= j < k && cs[j].stage@ == stage ==> cs[j].timestamp <= cs[i].timestamp
        },
        latest_of(cs, stage, k) < 0 ==> forall|j: int| 0 <= j < k ==> cs[j].stage@ != stage,
    decreases k,
{
    if k > 0 {
        lemma_latest_is_newest(cs, stage, (k - 1) as nat);
    }
}

/// What the retry loop does with the action a failed attempt got.
#[derive(Debug)]
pub enum RecoveryStep {
    /// Wait, then try again
    RetryAfter { delay: Duration },
    /// Remove these paths, wait, then try again
    CleanThenRetry { clean_paths: Vec<String>, delay: Duration },
    /// Give up with this error, after these warnings
    GiveUp { warnings: Vec<String>, error: BuildError },
}

/// The warnings and error of a recovery action that gives up, if it gives
/// up: a skipped step, an alternative method the caller must use, or an
/// abort with its suggestions.
pub open spec fn give_up_of(action: RecoveryAction) -> Option<(Seq<Seq<char>>, Seq<char>)> {
    match action {
        RecoveryAction::Skip { warning } => Some((seq![warning@], "Operation skipped due to error"@)),
        RecoveryAction::Alternative { method, .. } => Some((
            seq!["Using alternative method: "@ + method@],
            "Alternative method required: "@ + method@,
        )),
        RecoveryAction::Abort { message, suggestions } => Some((
            string_views(suggestions@).map_values(|s: Seq<char>| "Suggestion: "@ + s),
            message@,
        )),
        _ => None,
    }
}

/// The step of the retry loop for an action.
pub fn recovery_step(action: RecoveryAction) -> (r: RecoveryStep)
    ensures
        match action {
            RecoveryAction::Retry { delay, .. } => r matches RecoveryStep::RetryAfter { delay: d } && d == delay,
            RecoveryAction::CleanRetry { clean_paths, delay } => r matches RecoveryStep::CleanThenRetry { clean_paths: p, delay: d }
                && p@ == clean_paths@ && d == delay,
            _ => r matches RecoveryStep::GiveUp { warnings, error: BuildError::Failed { message } } && give_up_of(action)
                == Some((string_views(warnings@), message@)),
        },
{
    match action {
        RecoveryAction::Retry { delay, .. } => RecoveryStep::RetryAfter { delay },
        RecoveryAction::CleanRetry { clean_paths, delay } => RecoveryStep::CleanThenRetry { clean_paths, delay },
        RecoveryAction::Skip { warning } => {
            let ghost wv = warning@;
            let mut w: Vec<String> = Vec::new();
            w.push(warning);
            assert(string_views(w@) =~= seq![wv]);
            RecoveryStep::GiveUp { warnings: w, error: BuildError::Failed { message: owned("Operation skipped due to error") } }
        },
        RecoveryAction::Alternative { method, .. } => {
            let mut w: Vec<String> = Vec::new();
            w.push(concat("Using alternative method: ", method.as_str()));
            let msg = concat("Alternative method required: ", method.as_str());
            assert(string_views(w@) =~= seq!["Using alternative method: "@ + method@]);
            RecoveryStep::GiveUp { warnings: w, error: BuildError::Failed { message: msg } }
        },
        RecoveryAction::Abort { message, suggestions } => {
            let mut w: Vec<String> = Vec::new();
            for i in 0..suggestions.len()
                invariant
                    string_views(w@) == string_views(suggestions@).take(i as int).map_values(|s: Seq<char>| "Suggestion: "@ + s),
            {
                let ghost prev = w@;
                w.push(concat("Suggestion: ", suggestions[i].as_str()));
                assert(string_views(w@) =~= string_views(prev).push("Suggestion: "@ + suggestions@[i as int]@));
                assert(string_views(suggestions@).take(i + 1).map_values(|s: Seq<char>| "Suggestion: "@ + s) =~= string_views(
                    suggestions@,
                ).take(i as int).map_values(|s: Seq<char>| "Suggestion: "@ + s).push("Suggestion: "@ + suggestions@[i as int]@));
            }
            assert(string_views(suggestions@).take(suggestions@.len() as int) =~= string_views(suggestions@));
            RecoveryStep::GiveUp { warnings: w, error: BuildError::Failed { message } }
        },
    }
}

} // verus!
