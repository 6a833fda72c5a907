//! Sandbox configuration for build isolation: the sandbox-exec profile a
//! configuration makes, and which paths it opens.
use crate::paths::{join, path_join, path_starts_with, starts_with_path};
use crate::text::{concat, contains, from_chars, occurs_at, owned, push_all, string_views, to_chars};
use vstd::prelude::*;

verus! {

/// Sandbox profile for macOS sandbox-exec
#[derive(Debug, Clone)]
pub struct SandboxProfile {
    /// Name of the profile
    pub name: String,
    /// Profile content in Scheme format
    pub content: String,
}

/// Resource limits for sandboxed processes
#[derive(Debug, Clone, Copy)]
pub struct ResourceLimits {
    /// Maximum CPU time in seconds
    pub cpu_time: Option<u64>,
    /// Maximum memory in bytes
    pub memory: Option<u64>,
    /// Maximum number of open files
    pub open_files: Option<u64>,
    /// Maximum number of processes
    pub processes: Option<u64>,
}

/// The default limits: an hour of CPU time, 4 GiB of memory, 1024 open
/// files and 128 processes.
pub open spec fn default_limits() -> ResourceLimits {
    ResourceLimits {
        cpu_time: Some(3600u64),
        memory: Some(4294967296u64),
        open_files: Some(1024u64),
        processes: Some(128u64),
    }
}

impl Default for ResourceLimits {
    fn default() -> (r: Self)
        ensures
            r == default_limits(),
            r.cpu_time == Some(3600u64),
            r.memory == Some(4294967296u64),
            r.open_files == Some(1024u64),
            r.processes == Some(128u64),
    {
        ResourceLimits {
            cpu_time: Some(3600),
            memory: Some(4 * 1024 * 1024 * 1024),
            open_files: Some(1024),
            processes: Some(128),
        }
    }
}

/// Sandbox configuration
#[derive(Debug, Clone)]
pub struct SandboxConfig {
    /// Allow network access
    pub allow_network: bool,
    /// Paths allowed for reading
    pub allow_read_paths: Vec<String>,
    /// Paths allowed for writing
    pub allow_write_paths: Vec<String>,
    /// Paths allowed for execution
    pub allow_exec_paths: Vec<String>,
    /// Process resource limits
    pub resource_limits: ResourceLimits,
    /// Whether to allow process spawning
    pub allow_spawn: bool,
    /// Whether to allow sysctl access
    pub allow_sysctl: bool,
}

/// The paths a default sandbox may read.
pub open spec fn default_read_paths() -> Seq<Seq<char>> {
    seq!["/usr/bin"@, "/usr/lib"@, "/usr/include"@, "/System"@, "/Library/Developer/CommandLineTools"@, "/bin"@, "/sbin"@]
}

/// The paths a default sandbox may execute from.
pub open spec fn default_exec_paths() -> Seq<Seq<char>> {
    seq!["/usr/bin"@, "/bin"@, "/usr/sbin"@, "/sbin"@]
}

impl Default for SandboxConfig {
    fn default() -> (r: Self)
        ensures
            !r.allow_network,
            string_views(r.allow_read_paths@) == default_read_paths(),
            r.allow_write_paths@.len() == 0,
            string_views(r.allow_exec_paths@) == default_exec_paths(),
            r.allow_spawn,
            !r.allow_sysctl,
            r.resource_limits.cpu_time == Some(3600u64),
            r.resource_limits == default_limits(),
    {
        let mut reads: Vec<String> = Vec::new();
        reads.push(owned("/usr/bin"));
        reads.push(owned("/usr/lib"));
        reads.push(owned("/usr/include"));
        reads.push(owned("/System"));
        reads.push(owned("/Library/Developer/CommandLineTools"));
        reads.push(owned("/bin"));
        reads.push(owned("/sbin"));
        let mut execs: Vec<String> = Vec::new();
        execs.push(owned("/usr/bin"));
        execs.push(owned("/bin"));
        execs.push(owned("/usr/sbin"));
        execs.push(owned("/sbin"));
        assert(string_views(reads@) =~= default_read_paths());
        assert(string_views(execs@) =~= default_exec_paths());
        SandboxConfig {
            allow_network: false,
            allow_read_paths: reads,
            allow_write_paths: Vec::new(),
            allow_exec_paths: execs,
            resource_limits: ResourceLimits::default(),
            allow_spawn: true,
            allow_sysctl: false,
        }
    }
}

/// One rule per path: `(allow <what> (subpath "<path>"))`.
pub open spec fn subpath_rule(what: Seq<char>, path: Seq<char>) -> Seq<char> {
    "(allow "@ + what + " (subpath \""@ + path + "\"))"@
}

/// The read rules of the given paths: full reads and metadata reads.
pub open spec fn read_rules(paths: Seq<Seq<char>>) -> Seq<Seq<char>>
    decreases paths.len(),
{
    if paths.len() == 0 {
        seq![]
    } else {
        read_rules(paths.drop_last()) + seq![
            subpath_rule("file-read*"@, paths.last()),
            subpath_rule("file-read-metadata"@, paths.last()),
        ]
    }
}

/// One rule of kind `what` per path.
pub open spec fn path_rules(what: Seq<char>, paths: Seq<Seq<char>>) -> Seq<Seq<char>>
    decreases paths.len(),
{
    if paths.len() == 0 {
        seq![]
    } else {
        path_rules(what, paths.drop_last()).push(subpath_rule(what, paths.last()))
    }
}

/// The rules of the profile, in order: deny by default; signals and system
/// sockets; process spawning and sysctl where allowed; the network (or only
/// local binds); reads, writes and executes of the configured paths and the
/// build directory; Mach and IPC; temporary directories.
pub open spec fn profile_rules(config: SandboxConfig, build_dir: Seq<char>) -> Seq<Seq<char>> {
    seq!["(version 1)"@, "(deny default)"@, "(allow signal)"@, "(allow system-socket)"@]
        + (if config.allow_spawn { seq!["(allow process-fork)"@, "(allow process-exec*)"@] } else { seq![] })
        + (if config.allow_sysctl { seq!["(allow sysctl-read)"@] } else { seq![] })
        + (if config.allow_network {
            seq!["(allow network*)"@]
        } else {
            seq![
                "(allow network-bind (local ip \"localhost:*\"))"@,
                "(allow network-bind (local ip \"127.0.0.1:*\"))"@,
                "(allow network-bind (local ip \"::1:*\"))"@,
            ]
        })
        + read_rules(string_views(config.allow_read_paths@))
        + read_rules(seq![build_dir])
        + path_rules("file-write*"@, string_views(config.allow_write_paths@))
        + seq![
            subpath_rule("file-write*"@, build_dir),
            subpath_rule("file-write-create"@, build_dir),
            subpath_rule("file-write-unlink"@, build_dir),
        ]
        + path_rules("file-exec"@, string_views(config.allow_exec_paths@))
        + seq![
            "(allow mach-lookup)"@,
            "(allow mach-register)"@,
            "(allow ipc-posix-shm)"@,
            "(allow file-write* (subpath \"/private/tmp\"))"@,
            "(allow file-write* (subpath \"/var/folders\"))"@,
        ]
}

/// The rules, one per line.
pub open spec fn joined_lines(rules: Seq<Seq<char>>) -> Seq<char>
    decreases rules.len(),
{
    if rules.len() == 0 {
        seq![]
    } else if rules.len() == 1 {
        rules[0]
    } else {
        joined_lines(rules.drop_last()) + "\n"@ + rules.last()
    }
}

fn subpath_rule_exec(what: &str, path: &str) -> (r: String)
    ensures
        r@ == subpath_rule(what@, path@),
{
    let a = concat("(allow ", what);
    let b = concat(a.as_str(), " (subpath \"");
    let c = concat(b.as_str(), path);
    concat(c.as_str(), "\"))")
}

fn push_read_rules(rules: &mut Vec<String>, paths: &Vec<String>)
    ensures
        string_views(final(rules)@) == string_views(old(rules)@) + read_rules(string_views(paths@)),
{
    let ghost ps = string_views(paths@);
    for i in 0..paths.len()
        invariant
            ps == string_views(paths@),
            string_views(rules@) == string_views(old(rules)@) + read_rules(ps.take(i as int)),
    {
        proof {
            assert(ps.take(i + 1).drop_last() == ps.take(i as int));
        }
        let ghost prev = rules@;
        rules.push(subpath_rule_exec("file-read*", paths[i].as_str()));
        rules.push(subpath_rule_exec("file-read-metadata", paths[i].as_str()));
        assert(string_views(rules@) =~= string_views(prev) + seq![
            subpath_rule("file-read*"@, ps[i as int]),
            subpath_rule("file-read-metadata"@, ps[i as int]),
        ]);
    }
    assert(ps.take(paths@.len() as int) == ps);
}

fn push_path_rules(rules: &mut Vec<String>, what: &str, paths: &Vec<String>)
    ensures
        string_views(final(rules)@) == string_views(old(rules)@) + path_rules(what@, string_views(paths@)),
{
    let ghost ps = string_views(paths@);
    for i in 0..paths.len()
        invariant
            ps == string_views(paths@),
            string_views(rules@) == string_views(old(rules)@) + path_rules(what@, ps.take(i as int)),
    {
        proof {
            assert(ps.take(i + 1).drop_last() == ps.take(i as int));
        }
        let ghost prev = rules@;
        rules.push(subpath_rule_exec(what, paths[i].as_str()));
        assert(string_views(rules@) =~= string_views(prev).push(subpath_rule(what@, ps[i as int])));
    }
    assert(ps.take(paths@.len() as int) == ps);
}

fn push_str(rules: &mut Vec<String>, s: &str)
    ensures
        string_views(final(rules)@) == string_views(old(rules)@).push(s@),
{
    let ghost prev = rules@;
    rules.push(owned(s));
    assert(string_views(rules@) =~= string_views(prev).push(s@));
}

fn join_lines(rules: &Vec<String>) -> (r: String)
    ensures
        r@ == joined_lines(string_views(rules@)),
{
    let ghost rs = string_views(rules@);
    let mut out: Vec<char> = Vec::new();
    for i in 0..rules.len()
        invariant
            rs == string_views(rules@),
            out@ == joined_lines(rs.take(i as int)),
    {
        proof {
            assert(rs.take(i + 1).drop_last() == rs.take(i as int));
            reveal_strlit("\n");
        }
        if i > 0 {
            out.push('\n');
        } else {
            assert(rs.take(1) == seq![rs[0]]);
        }
        let line = to_chars(rules[i].as_str());
        push_all(&mut out, line.as_slice());
    }
    assert(rs.take(rules@.len() as int) == rs);
    from_chars(out.as_slice())
}

/// The `i`th rule of kind `what` is the one for the `i`th path.
proof fn lemma_path_rule_at(what: Seq<char>, paths: Seq<Seq<char>>, i: int)
    requires
        0 <= i < paths.len(),
    ensures
        path_rules(what, paths).len() == paths.len(),
        path_rules(what, paths)[i] == subpath_rule(what, paths[i]),
    decreases paths.len(),
{
    lemma_path_rules_len(what, paths);
    if i < paths.len() - 1 {
        lemma_path_rule_at(what, paths.drop_last(), i);
    }
}

proof fn lemma_path_rules_len(what: Seq<char>, paths: Seq<Seq<char>>)
    ensures
        path_rules(what, paths).len() == paths.len(),
    decreases paths.len(),
{
    if paths.len() > 0 {
        lemma_path_rules_len(what, paths.drop_last());
    }
}

/// The read rules of the `i`th path are the pair at `2 * i`.
proof fn lemma_read_rule_at(paths: Seq<Seq<char>>, i: int)
    requires
        0 <= i < paths.len(),
    ensures
        read_rules(paths).len() == 2 * paths.len(),
        read_rules(paths)[2 * i] == subpath_rule("file-read*"@, paths[i]),
    decreases paths.len(),
{
    lemma_read_rules_len(paths);
    if i < paths.len() - 1 {
        lemma_read_rule_at(paths.drop_last(), i);
        lemma_read_rules_len(paths.drop_last());
    }
}

proof fn lemma_read_rules_len(paths: Seq<Seq<char>>)
    ensures
        read_rules(paths).len() == 2 * paths.len(),
    decreases paths.len(),
{
    if paths.len() > 0 {
        lemma_read_rules_len(paths.drop_last());
    }
}

/// Each rule stands in the text of the rules.
proof fn lemma_rule_in_text(rules: Seq<Seq<char>>, i: int)
    requires
        0 <= i < rules.len(),
    ensures
        contains(joined_lines(rules), rules[i]),
    decreases rules.len(),
{
    let t = joined_lines(rules);
    if rules.len() == 1 {
        assert(t.subrange(0, rules[0].len() as int) =~= rules[0]);
        assert(occurs_at(t, rules[i], 0));
    } else if i == rules.len() - 1 {
        let pre = joined_lines(rules.drop_last()) + "\n"@;
        assert(t =~= pre + rules.last());
        assert(t.subrange(pre.len() as int, (pre.len() + rules[i].len()) as int) =~= rules[i]);
        assert(occurs_at(t, rules[i], pre.len() as int));
    } else {
        lemma_rule_in_text(rules.drop_last(), i);
        let t0 = joined_lines(rules.drop_last());
        let k = choose|k: int| occurs_at(t0, rules.drop_last()[i], k);
        assert(t =~= t0 + ("\n"@ + rules.last()));
        assert(t.subrange(k, k + rules[i].len()) =~= t0.subrange(k, k + rules[i].len()));
        assert(occurs_at(t, rules[i], k));
    }
}

/// A sandbox profile allows every path its configuration names: each
/// readable path is read with `(allow file-read* (subpath "<path>"))`, each
/// writable one written with `(allow file-write* (subpath "<path>"))`, each
/// executable one executed with `(allow file-exec (subpath "<path>"))`, and
/// the build directory is both read and written.
pub proof fn lemma_profile_allows_configured_paths(config: SandboxConfig, build_dir: Seq<char>)
    ensures
        forall|i: int| 0 <= i < config.allow_read_paths@.len() ==> contains(
            joined_lines(profile_rules(config, build_dir)),
            "(allow file-read* (subpath \""@ + #[trigger] config.allow_read_paths@[i]@ + "\"))"@,
        ),
        forall|i: int| 0 <= i < config.allow_write_paths@.len() ==> contains(
            joined_lines(profile_rules(config, build_dir)),
            "(allow file-write* (subpath \""@ + #[trigger] config.allow_write_paths@[i]@ + "\"))"@,
        ),
        forall|i: int| 0 <= i < config.allow_exec_paths@.len() ==> contains(
            joined_lines(profile_rules(config, build_dir)),
            "(allow file-exec (subpath \""@ + #[trigger] config.allow_exec_paths@[i]@ + "\"))"@,
        ),
        contains(joined_lines(profile_rules(config, build_dir)), "(allow file-read* (subpath \""@ + build_dir + "\"))"@),
        contains(joined_lines(profile_rules(config, build_dir)), "(allow file-write* (subpath \""@ + build_dir + "\"))"@),
{
    reveal_strlit("(allow ");
    reveal_strlit(" (subpath \"");
    reveal_strlit("file-read*");
    reveal_strlit("file-write*");
    reveal_strlit("file-exec");
    reveal_strlit("(allow file-read* (subpath \"");
    reveal_strlit("(allow file-write* (subpath \"");
    reveal_strlit("(allow file-exec (subpath \"");
    let rd = string_views(config.allow_read_paths@);
    let wr = string_views(config.allow_write_paths@);
    let ex = string_views(config.allow_exec_paths@);
    let head = seq!["(version 1)"@, "(deny default)"@, "(allow signal)"@, "(allow system-socket)"@]
        + (if config.allow_spawn { seq!["(allow process-fork)"@, "(allow process-exec*)"@] } else { seq![] })
        + (if config.allow_sysctl { seq!["(allow sysctl-read)"@] } else { seq![] })
        + (if config.allow_network {
            seq!["(allow network*)"@]
        } else {
            seq![
                "(allow network-bind (local ip \"localhost:*\"))"@,
                "(allow network-bind (local ip \"127.0.0.1:*\"))"@,
                "(allow network-bind (local ip \"::1:*\"))"@,
            ]
        });
    let a = head + read_rules(rd);
    let b = a + read_rules(seq![build_dir]);
    let c = b + path_rules("file-write*"@, wr);
    let d = c + seq![
        subpath_rule("file-write*"@, build_dir),
        subpath_rule("file-write-create"@, build_dir),
        subpath_rule("file-write-unlink"@, build_dir),
    ];
    let e = d + path_rules("file-exec"@, ex);
    let rules = profile_rules(config, build_dir);
    let tail = seq![
        "(allow mach-lookup)"@,
        "(allow mach-register)"@,
        "(allow ipc-posix-shm)"@,
        "(allow file-write* (subpath \"/private/tmp\"))"@,
        "(allow file-write* (subpath \"/var/folders\"))"@,
    ];
    assert(rules == e + tail);
    lemma_read_rules_len(rd);
    lemma_read_rules_len(seq![build_dir]);
    lemma_path_rules_len("file-write*"@, wr);
    lemma_path_rules_len("file-exec"@, ex);
    assert forall|i: int| 0 <= i < config.allow_read_paths@.len() implies contains(
        joined_lines(rules),
        "(allow file-read* (subpath \""@ + #[trigger] config.allow_read_paths@[i]@ + "\"))"@,
    ) by {
        lemma_read_rule_at(rd, i);
        let k = head.len() + 2 * i;
        assert(rules[k] == read_rules(rd)[2 * i]);
        assert(rules[k] =~= "(allow file-read* (subpath \""@ + rd[i] + "\"))"@);
        lemma_rule_in_text(rules, k);
    }
    assert forall|i: int| 0 <= i < config.allow_write_paths@.len() implies contains(
        joined_lines(rules),
        "(allow file-write* (subpath \""@ + #[trigger] config.allow_write_paths@[i]@ + "\"))"@,
    ) by {
        lemma_path_rule_at("file-write*"@, wr, i);
        let k = b.len() + i;
        assert(rules[k] == path_rules("file-write*"@, wr)[i]);
        assert(rules[k] =~= "(allow file-write* (subpath \""@ + wr[i] + "\"))"@);
        lemma_rule_in_text(rules, k);
    }
    assert forall|i: int| 0 <= i < config.allow_exec_paths@.len() implies contains(
        joined_lines(rules),
        "(allow file-exec (subpath \""@ + #[trigger] config.allow_exec_paths@[i]@ + "\"))"@,
    ) by {
        lemma_path_rule_at("file-exec"@, ex, i);
        let k = d.len() + i;
        assert(rules[k] == path_rules("file-exec"@, ex)[i]);
        assert(rules[k] =~= "(allow file-exec (subpath \""@ + ex[i] + "\"))"@);
        lemma_rule_in_text(rules, k);
    }
    lemma_read_rule_at(seq![build_dir], 0);
    assert(rules[a.len() as int] =~= "(allow file-read* (subpath \""@ + build_dir + "\"))"@);
    lemma_rule_in_text(rules, a.len() as int);
    assert(rules[c.len() as int] =~= "(allow file-write* (subpath \""@ + build_dir + "\"))"@);
    lemma_rule_in_text(rules, c.len() as int);
}

impl SandboxProfile {
    /// Create a new sandbox profile from configuration
    #[verifier::rlimit(40)]
    pub fn from_config(config: &SandboxConfig, build_dir: &str) -> (r: Self)
        ensures
            r.name@ == "sps2-build-sandbox"@,
            r.content@ == joined_lines(profile_rules(*config, build_dir@)),
    {
        let mut rules: Vec<String> = Vec::new();
        push_str(&mut rules, "(version 1)");
        push_str(&mut rules, "(deny default)");
        push_str(&mut rules, "(allow signal)");
        push_str(&mut rules, "(allow system-socket)");
        if config.allow_spawn {
            push_str(&mut rules, "(allow process-fork)");
            push_str(&mut rules, "(allow process-exec*)");
        }
        if config.allow_sysctl {
            push_str(&mut rules, "(allow sysctl-read)");
        }
        if config.allow_network {
            push_str(&mut rules, "(allow network*)");
        } else {
            push_str(&mut rules, "(allow network-bind (local ip \"localhost:*\"))");
            push_str(&mut rules, "(allow network-bind (local ip \"127.0.0.1:*\"))");
            push_str(&mut rules, "(allow network-bind (local ip \"::1:*\"))");
        }
        push_read_rules(&mut rules, &config.allow_read_paths);
        let mut bd: Vec<String> = Vec::new();
        bd.push(owned(build_dir));
        assert(string_views(bd@) =~= seq![build_dir@]);
        push_read_rules(&mut rules, &bd);
        push_path_rules(&mut rules, "file-write*", &config.allow_write_paths);
        let ghost prev = rules@;
        rules.push(subpath_rule_exec("file-write*", build_dir));
        rules.push(subpath_rule_exec("file-write-create", build_dir));
        rules.push(subpath_rule_exec("file-write-unlink", build_dir));
        assert(string_views(rules@) =~= string_views(prev) + seq![
            subpath_rule("file-write*"@, build_dir@),
            subpath_rule("file-write-create"@, build_dir@),
            subpath_rule("file-write-unlink"@, build_dir@),
        ]);
        push_path_rules(&mut rules, "file-exec", &config.allow_exec_paths);
        push_str(&mut rules, "(allow mach-lookup)");
        push_str(&mut rules, "(allow mach-register)");
        push_str(&mut rules, "(allow ipc-posix-shm)");
        push_str(&mut rules, "(allow file-write* (subpath \"/private/tmp\"))");
        push_str(&mut rules, "(allow file-write* (subpath \"/var/folders\"))");
        assert(string_views(rules@) =~= profile_rules(*config, build_dir@));
        SandboxProfile { name: owned("sps2-build-sandbox"), content: join_lines(&rules) }
    }
}

/// Sandbox executor for running commands in isolation
pub struct SandboxExecutor {
    config: SandboxConfig,
    profile: SandboxProfile,
    build_dir: String,
}

impl SandboxExecutor {
    /// Create a new sandbox executor: its profile is made from the
    /// configuration and the build directory.
    pub fn new(config: SandboxConfig, build_dir: String) -> (r: Self)
        ensures
            r.config() == config,
            r.build_dir() == build_dir,
            r.profile().name@ == "sps2-build-sandbox"@,
            r.profile().content@ == joined_lines(profile_rules(config, build_dir@)),
    {
        let profile = SandboxProfile::from_config(&config, build_dir.as_str());
        SandboxExecutor { config, profile, build_dir }
    }

    /// The configuration.
    pub closed spec fn config(&self) -> SandboxConfig {
        self.config
    }

    /// The profile.
    pub closed spec fn profile(&self) -> SandboxProfile {
        self.profile
    }

    /// The build directory.
    pub closed spec fn build_dir(&self) -> String {
        self.build_dir
    }

    /// The profile the sandbox runs commands under.
    pub fn sandbox_profile(&self) -> (r: &SandboxProfile)
        ensures
            *r == self.profile(),
    {
        &self.profile
    }
}

/// Path accessibility information
#[derive(Debug, Clone, Copy, PartialEq, Eq, Structural)]
pub struct PathAccessibility {
    /// Can read from this path
    pub readable: bool,
    /// Can write to this path
    pub writable: bool,
    /// Can execute from this path
    pub executable: bool,
}

/// The path lies at or below one of the allowed paths.
pub open spec fn under_any(p: Seq<char>, allowed: Seq<Seq<char>>) -> bool {
    exists|i: int| 0 <= i < allowed.len() && path_starts_with(p, #[trigger] allowed[i])
}

fn under_any_exec(p: &str, allowed: &Vec<String>) -> (r: bool)
    ensures
        r == under_any(p@, string_views(allowed@)),
{
    let ghost al = string_views(allowed@);
    for i in 0..allowed.len()
        invariant
            al == string_views(allowed@),
            forall|j: int| 0 <= j < i ==> !path_starts_with(p@, #[trigger] al[j]),
    {
        if starts_with_path(p, allowed[i].as_str()) {
            assert(path_starts_with(p@, al[i as int]));
            return true;
        }
    }
    false
}

/// Check if a path would be accessible with given sandbox config
pub fn check_path_accessibility(path: &str, config: &SandboxConfig) -> (r: PathAccessibility)
    ensures
        r.readable == under_any(path@, string_views(config.allow_read_paths@)),
        r.writable == under_any(path@, string_views(config.allow_write_paths@)),
        r.executable == under_any(path@, string_views(config.allow_exec_paths@)),
{
    PathAccessibility {
        readable: under_any_exec(path, &config.allow_read_paths),
        writable: under_any_exec(path, &config.allow_write_paths),
        executable: under_any_exec(path, &config.allow_exec_paths),
    }
}

/// The minimal sandbox of a build directory: the default one, with the
/// build directory readable, writable and executable, and, where the build
/// directory holds a `deps` directory (`deps_exists`), that directory
/// readable and its `bin` executable.
pub open spec fn is_minimal_sandbox(r: SandboxConfig, build_dir: Seq<char>, deps_exists: bool) -> bool {
    &&& !r.allow_network
    &&& r.allow_spawn
    &&& !r.allow_sysctl
    &&& r.resource_limits == default_limits()
    &&& string_views(r.allow_read_paths@) == default_read_paths().push(build_dir) + if deps_exists {
        seq![path_join(build_dir, "deps"@)]
    } else {
        seq![]
    }
    &&& string_views(r.allow_write_paths@) == seq![build_dir]
    &&& string_views(r.allow_exec_paths@) == default_exec_paths().push(build_dir) + if deps_exists {
        seq![path_join(path_join(build_dir, "deps"@), "bin"@)]
    } else {
        seq![]
    }
}

/// Create a minimal sandbox configuration for builds: the default one, with
/// the build directory readable, writable and executable, and, where the
/// build directory holds a `deps` directory (`deps_exists`), that directory
/// readable and its `bin` executable.
pub fn minimal_build_sandbox(build_dir: &str, deps_exists: bool) -> (r: SandboxConfig)
    ensures
        is_minimal_sandbox(r, build_dir@, deps_exists),
{
    let mut config = SandboxConfig::default();
    push_str(&mut config.allow_read_paths, build_dir);
    push_str(&mut config.allow_write_paths, build_dir);
    push_str(&mut config.allow_exec_paths, build_dir);
    if deps_exists {
        let deps = join(build_dir, "deps");
        let bin = join(deps.as_str(), "bin");
        push_str(&mut config.allow_read_paths, deps.as_str());
        push_str(&mut config.allow_exec_paths, bin.as_str());
    }
    assert(string_views(config.allow_read_paths@) =~= default_read_paths().push(build_dir@) + if deps_exists {
        seq![path_join(build_dir@, "deps"@)]
    } else {
        seq![]
    });
    assert(string_views(config.allow_write_paths@) =~= seq![build_dir@]);
    assert(string_views(config.allow_exec_paths@) =~= default_exec_paths().push(build_dir@) + if deps_exists {
        seq![path_join(path_join(build_dir@, "deps"@), "bin"@)]
    } else {
        seq![]
    });
    config
}

/// In the minimal sandbox of a build directory, every path joined under the
/// build directory is readable, writable and executable.
pub proof fn lemma_build_dir_accessible(r: SandboxConfig, build_dir: Seq<char>, deps_exists: bool, name: Seq<char>)
    requires
        is_minimal_sandbox(r, build_dir, deps_exists),
    ensures
        under_any(path_join(build_dir, name), string_views(r.allow_read_paths@)),
        under_any(path_join(build_dir, name), string_views(r.allow_write_paths@)),
        under_any(path_join(build_dir, name), string_views(r.allow_exec_paths@)),
{
    crate::paths::lemma_join_under(build_dir, name);
    let rd = string_views(r.allow_read_paths@);
    let ex = string_views(r.allow_exec_paths@);
    assert(rd[default_read_paths().len() as int] == build_dir);
    assert(string_views(r.allow_write_paths@)[0] == build_dir);
    assert(ex[default_exec_paths().len() as int] == build_dir);
}

/// A configured path is always accessible as configured: every path under
/// an allowed read path is readable, and likewise for write and execute.
pub proof fn lemma_allowed_paths_accessible(p: Seq<char>, config: SandboxConfig, i: int)
    requires
        0 <= i < config.allow_read_paths@.len(),
        path_starts_with(p, config.allow_read_paths@[i]@),
    ensures
        under_any(p, string_views(config.allow_read_paths@)),
{
    assert(string_views(config.allow_read_paths@)[i] == config.allow_read_paths@[i]@);
}

} // verus!
