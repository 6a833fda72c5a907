//! Hermetic isolation configuration.
use crate::environment::build_env::{name_views, BuildEnvironment};
use crate::environment::isolation::{network_isolated, proxy_vars};
use crate::errors::BuildError;
use crate::paths::{join, path_join, path_starts_with, starts_with_path};
use crate::string_map::StringMap;
use crate::text::{concat, contains, contains_str, decimal, owned, string_views, to_chars, usize_to_string};
use vstd::prelude::*;

verus! {

/// Hermetic isolation configuration
#[derive(Debug, Clone)]
pub struct HermeticConfig {
    /// Environment variables to preserve (whitelist), each once
    pub allowed_env_vars: Vec<String>,
    /// Paths that should be accessible read-only
    pub allowed_read_paths: Vec<String>,
    /// Paths that should be accessible read-write
    pub allowed_write_paths: Vec<String>,
    /// Whether to allow network access
    pub allow_network: bool,
    /// Temporary home directory path
    pub temp_home: Option<String>,
    /// Whether to create minimal device nodes
    pub create_devices: bool,
}

impl Default for HermeticConfig {
    fn default() -> (r: Self)
        ensures
            string_views(r.allowed_env_vars@) == seq![
                "PATH"@, "HOME"@, "TMPDIR"@, "TEMP"@, "TMP"@, "USER"@, "SHELL"@, "TERM"@,
            ],
            string_views(r.allowed_read_paths@) == seq![
                "/usr/bin"@, "/usr/lib"@, "/usr/include"@, "/System"@, "/Library/Developer/CommandLineTools"@,
            ],
            r.allowed_write_paths@.len() == 0,
            !r.allow_network,
            r.temp_home is None,
            !r.create_devices,
    {
        let mut vars: Vec<String> = Vec::new();
        vars.push(owned("PATH"));
        vars.push(owned("HOME"));
        vars.push(owned("TMPDIR"));
        vars.push(owned("TEMP"));
        vars.push(owned("TMP"));
        vars.push(owned("USER"));
        vars.push(owned("SHELL"));
        vars.push(owned("TERM"));
        let mut reads: Vec<String> = Vec::new();
        reads.push(owned("/usr/bin"));
        reads.push(owned("/usr/lib"));
        reads.push(owned("/usr/include"));
        reads.push(owned("/System"));
        reads.push(owned("/Library/Developer/CommandLineTools"));
        assert(string_views(vars@) =~= seq![
            "PATH"@, "HOME"@, "TMPDIR"@, "TEMP"@, "TMP"@, "USER"@, "SHELL"@, "TERM"@,
        ]);
        assert(string_views(reads@) =~= seq![
            "/usr/bin"@, "/usr/lib"@, "/usr/include"@, "/System"@, "/Library/Developer/CommandLineTools"@,
        ]);
        HermeticConfig {
            allowed_env_vars: vars,
            allowed_read_paths: reads,
            allowed_write_paths: Vec::new(),
            allow_network: false,
            temp_home: None,
            create_devices: false,
        }
    }
}

/// The dead proxy that cuts a build off from the network.
pub open spec fn dead_proxy() -> Seq<char> {
    "http://127.0.0.1:1"@
}

/// The variables after network isolation: every proxy variable points at a
/// dead proxy, and only local hosts are exempt.
pub open spec fn network_isolated_vars(m: Map<Seq<char>, Seq<char>>) -> Map<Seq<char>, Seq<char>> {
    m.insert("http_proxy"@, dead_proxy())
        .insert("https_proxy"@, dead_proxy())
        .insert("ftp_proxy"@, dead_proxy())
        .insert("all_proxy"@, dead_proxy())
        .insert("HTTP_PROXY"@, dead_proxy())
        .insert("HTTPS_PROXY"@, dead_proxy())
        .insert("FTP_PROXY"@, dead_proxy())
        .insert("ALL_PROXY"@, dead_proxy())
        .insert("no_proxy"@, "localhost,127.0.0.1,::1"@)
        .insert("NO_PROXY"@, "localhost,127.0.0.1,::1"@)
}

/// The variables of a clean hermetic build over `m`.
pub open spec fn clean_hermetic_vars(
    m: Map<Seq<char>, Seq<char>>,
    build_prefix: Seq<char>,
    staging: Seq<char>,
    jobs: usize,
) -> Map<Seq<char>, Seq<char>> {
    let deps = path_join(build_prefix, "deps"@);
    m.insert("PATH"@, path_join(deps, "bin"@) + ":/usr/bin:/bin:/usr/sbin:/sbin"@)
        .insert("PREFIX"@, staging)
        .insert("DESTDIR"@, staging)
        .insert("JOBS"@, decimal(jobs as nat))
        .insert("CFLAGS"@, "-I"@ + deps + "/include"@)
        .insert("CXXFLAGS"@, "-I"@ + deps + "/include"@)
        .insert("LDFLAGS"@, "-L"@ + deps + "/lib"@)
        .remove("LD_LIBRARY_PATH"@)
        .remove("DYLD_LIBRARY_PATH"@)
        .remove("DYLD_FALLBACK_LIBRARY_PATH"@)
        .remove("PKG_CONFIG_PATH"@)
        .insert("LANG"@, "C.UTF-8"@)
        .insert("LC_ALL"@, "C"@)
}

/// The host variables a hermetic build keeps: those the configuration allows.
pub open spec fn allowed_host_vars(host: Map<Seq<char>, Seq<char>>, config: HermeticConfig) -> Map<Seq<char>, Seq<char>> {
    host.restrict(Set::new(|k: Seq<char>| string_views(config.allowed_env_vars@).contains(k)))
}

/// The variables of a hermetic build: the allowed host variables, the clean
/// build variables, a home and temporary directory of its own, and the
/// network cut off unless allowed.
pub open spec fn hermetic_vars(
    host: Map<Seq<char>, Seq<char>>,
    config: HermeticConfig,
    build_prefix: Seq<char>,
    staging: Seq<char>,
    jobs: usize,
) -> Map<Seq<char>, Seq<char>> {
    let tmp = path_join(build_prefix, "tmp"@);
    let m = clean_hermetic_vars(allowed_host_vars(host, config), build_prefix, staging, jobs)
        .insert("HOME"@, temp_home_of(config, build_prefix))
        .insert("TMPDIR"@, tmp)
        .insert("TEMP"@, tmp)
        .insert("TMP"@, tmp);
    if config.allow_network { m } else { network_isolated_vars(m) }
}

/// The home directory of a hermetic build: the configured one, else `home`
/// under the build prefix.
pub open spec fn temp_home_of(config: HermeticConfig, build_prefix: Seq<char>) -> Seq<char> {
    match config.temp_home {
        Some(h) => h@,
        None => path_join(build_prefix, "home"@),
    }
}

/// The variables the build itself sets, which a hermetic build may hold
/// besides the allowed ones.
pub open spec fn hermetic_build_vars() -> Seq<Seq<char>> {
    seq!["PREFIX"@, "DESTDIR"@, "JOBS"@, "CFLAGS"@, "CXXFLAGS"@, "LDFLAGS"@, "PKG_CONFIG_PATH"@, "LANG"@, "LC_ALL"@]
}

/// The first key, in the order the variables were set, that is neither
/// allowed nor a build variable.
pub open spec fn first_unexpected(keys: Seq<Seq<char>>, allowed: Seq<Seq<char>>, from: int) -> Option<Seq<char>>
    decreases keys.len() - from,
{
    if from < 0 || from >= keys.len() {
        None
    } else if !allowed.contains(keys[from]) && !hermetic_build_vars().contains(keys[from]) {
        Some(keys[from])
    } else {
        first_unexpected(keys, allowed, from + 1)
    }
}

/// The first proxy variable, from `from` on, that is unset or live.
pub open spec fn first_bad_proxy(vars: Map<Seq<char>, Seq<char>>, from: int) -> Option<(Seq<char>, bool)>
    decreases 4 - from,
{
    if from < 0 || from >= 4 {
        None
    } else if !vars.contains_key(proxy_vars()[from]) {
        Some((proxy_vars()[from], false))
    } else if !contains(vars[proxy_vars()[from]], "127.0.0.1:1"@) {
        Some((proxy_vars()[from], true))
    } else {
        first_bad_proxy(vars, from + 1)
    }
}

/// The message of the hermetic check that fails, if one does.
pub open spec fn hermetic_violation(env: BuildEnvironment, config: HermeticConfig) -> Option<Seq<char>> {
    let vars = env.env_vars@;
    let keys = env.env_vars.pairs().map_values(|p: (Seq<char>, Seq<char>)| p.0);
    match first_unexpected(keys, string_views(config.allowed_env_vars@), 0) {
        Some(k) => Some("Unexpected environment variable: "@ + k),
        None => if !vars.contains_key("HOME"@) {
            Some("HOME environment variable not set"@)
        } else if !path_starts_with(vars["HOME"@], env.build_prefix@) {
            Some("HOME not pointing to isolated directory"@)
        } else if !vars.contains_key("TMPDIR"@) {
            Some("TMPDIR environment variable not set"@)
        } else if !path_starts_with(vars["TMPDIR"@], env.build_prefix@) {
            Some("TMPDIR not pointing to isolated directory"@)
        } else if config.allow_network {
            None
        } else {
            match first_bad_proxy(vars, 0) {
                Some((v, true)) => Some("Network isolation not properly configured: "@ + v),
                Some((v, false)) => Some("Network isolation variable not set: "@ + v),
                None => None,
            }
        },
    }
}

fn contains_name(v: &Vec<String>, s: &str) -> (r: bool)
    ensures
        r == string_views(v@).contains(s@),
{
    crate::build_systems::go::contains_arg(v.as_slice(), s)
}

impl BuildEnvironment {
    /// Points every proxy variable at a dead proxy.
    pub fn apply_network_isolation(&mut self) -> (r: Result<(), BuildError>)
        requires
            old(self).wf(),
        ensures
            final(self).wf(),
            r is Ok,
            final(self).env_vars@ == network_isolated_vars(old(self).env_vars@),
            final(self).build_prefix == old(self).build_prefix,
            final(self).staging_dir == old(self).staging_dir,
    {
        self.env_vars.insert(owned("http_proxy"), owned("http://127.0.0.1:1"));
        self.env_vars.insert(owned("https_proxy"), owned("http://127.0.0.1:1"));
        self.env_vars.insert(owned("ftp_proxy"), owned("http://127.0.0.1:1"));
        self.env_vars.insert(owned("all_proxy"), owned("http://127.0.0.1:1"));
        self.env_vars.insert(owned("HTTP_PROXY"), owned("http://127.0.0.1:1"));
        self.env_vars.insert(owned("HTTPS_PROXY"), owned("http://127.0.0.1:1"));
        self.env_vars.insert(owned("FTP_PROXY"), owned("http://127.0.0.1:1"));
        self.env_vars.insert(owned("ALL_PROXY"), owned("http://127.0.0.1:1"));
        self.env_vars.insert(owned("no_proxy"), owned("localhost,127.0.0.1,::1"));
        self.env_vars.insert(owned("NO_PROXY"), owned("localhost,127.0.0.1,::1"));
        Ok(())
    }

    /// The clean variables of a hermetic build, with the given job count.
    pub fn setup_clean_build_environment(&mut self, jobs: usize)
        requires
            old(self).wf(),
        ensures
            final(self).wf(),
            final(self).env_vars@ == clean_hermetic_vars(old(self).env_vars@, old(self).build_prefix@, old(self).staging_dir@, jobs),
            final(self).build_prefix == old(self).build_prefix,
            final(self).staging_dir == old(self).staging_dir,
    {
        let deps = self.deps_prefix();
        let bin = join(deps.as_str(), "bin");
        self.env_vars.insert(owned("PATH"), concat(bin.as_str(), ":/usr/bin:/bin:/usr/sbin:/sbin"));
        self.env_vars.insert(owned("PREFIX"), self.staging_dir.clone());
        self.env_vars.insert(owned("DESTDIR"), self.staging_dir.clone());
        self.env_vars.insert(owned("JOBS"), usize_to_string(jobs));
        let inc = concat(concat("-I", deps.as_str()).as_str(), "/include");
        self.env_vars.insert(owned("CFLAGS"), inc.clone());
        self.env_vars.insert(owned("CXXFLAGS"), inc);
        self.env_vars.insert(owned("LDFLAGS"), concat(concat("-L", deps.as_str()).as_str(), "/lib"));
        self.env_vars.remove("LD_LIBRARY_PATH");
        self.env_vars.remove("DYLD_LIBRARY_PATH");
        self.env_vars.remove("DYLD_FALLBACK_LIBRARY_PATH");
        self.env_vars.remove("PKG_CONFIG_PATH");
        self.env_vars.insert(owned("LANG"), owned("C.UTF-8"));
        self.env_vars.insert(owned("LC_ALL"), owned("C"));
    }

    /// The home directory of a hermetic build.
    pub fn temp_home_path(&self, config: &HermeticConfig) -> (r: String)
        ensures
            r@ == temp_home_of(*config, self.build_prefix@),
    {
        match &config.temp_home {
            Some(h) => h.clone(),
            None => join(self.build_prefix.as_str(), "home"),
        }
    }

    /// Makes the environment hermetic: only the allowed host variables, the
    /// clean build variables with the given job count, the home and
    /// temporary directories of its own (which the caller creates), and the
    /// network cut off unless allowed.
    pub fn apply_hermetic_isolation(&mut self, host: &StringMap, config: &HermeticConfig, jobs: usize) -> (r: Result<(), BuildError>)
        requires
            old(self).wf(),
            host.wf(),
        ensures
            final(self).wf(),
            r is Ok,
            final(self).env_vars@ == hermetic_vars(host@, *config, old(self).build_prefix@, old(self).staging_dir@, jobs),
            final(self).build_prefix == old(self).build_prefix,
            final(self).staging_dir == old(self).staging_dir,
    {
        self.env_vars = host.filter_keys(&config.allowed_env_vars);
        self.setup_clean_build_environment(jobs);
        let home = self.temp_home_path(config);
        self.env_vars.insert(owned("HOME"), home);
        let tmp = join(self.build_prefix.as_str(), "tmp");
        self.env_vars.insert(owned("TMPDIR"), tmp.clone());
        self.env_vars.insert(owned("TEMP"), tmp.clone());
        self.env_vars.insert(owned("TMP"), tmp);
        if !config.allow_network {
            let _ = self.apply_network_isolation();
        }
        Ok(())
    }

    /// Checks that the environment is hermetic: no variable beyond the
    /// allowed and build ones, home and temporary directories inside the
    /// build prefix, and the network cut off unless allowed.
    #[verifier::loop_isolation(false)]
    pub fn verify_hermetic_isolation(&self, config: &HermeticConfig) -> (r: Result<(), BuildError>)
        requires
            self.wf(),
        ensures
            match hermetic_violation(*self, *config) {
                None => r is Ok,
                Some(m) => r matches Err(BuildError::SandboxViolation { message }) && message@ == m,
            },
    {
        let es = self.env_vars.entries();
        let ghost keys = self.env_vars.pairs().map_values(|p: (Seq<char>, Seq<char>)| p.0);
        let ghost allowed = string_views(config.allowed_env_vars@);
        let build_vars: Vec<&str> = vec!["PREFIX", "DESTDIR", "JOBS", "CFLAGS", "CXXFLAGS", "LDFLAGS", "PKG_CONFIG_PATH", "LANG", "LC_ALL"];
        assert(name_views(build_vars@) =~= hermetic_build_vars());
        let mut i: usize = 0;
        while i < es.len()
            invariant
                i <= es@.len(),
                es@.map_values(|e: (String, String)| (e.0@, e.1@)) == self.env_vars.pairs(),
                keys == self.env_vars.pairs().map_values(|p: (Seq<char>, Seq<char>)| p.0),
                allowed == string_views(config.allowed_env_vars@),
                name_views(build_vars@) == hermetic_build_vars(),
                first_unexpected(keys, allowed, 0) == first_unexpected(keys, allowed, i as int),
            decreases es@.len() - i,
        {
            let k = &es[i].0;
            assert(keys[i as int] == k@);
            let mut is_build = false;
            for j in 0..build_vars.len()
                invariant
                    is_build == exists|m: int| 0 <= m < j && name_views(build_vars@)[m] == k@,
            {
                if eq_text(k, build_vars[j]) {
                    assert(name_views(build_vars@)[j as int] == k@);
                    is_build = true;
                }
            }
            assert(is_build == hermetic_build_vars().contains(k@)) by {
                if hermetic_build_vars().contains(k@) {
                    let m = choose|m: int| 0 <= m < hermetic_build_vars().len() && hermetic_build_vars()[m] == k@;
                }
            }
            if !contains_name(&config.allowed_env_vars, k.as_str()) && !is_build {
                return Err(BuildError::SandboxViolation { message: concat("Unexpected environment variable: ", k.as_str()) });
            }
            i = i + 1;
        }
        match self.env_vars.get("HOME") {
            Some(h) => {
                if !starts_with_path(h.as_str(), self.build_prefix.as_str()) {
                    return Err(BuildError::SandboxViolation { message: owned("HOME not pointing to isolated directory") });
                }
            },
            None => {
                return Err(BuildError::SandboxViolation { message: owned("HOME environment variable not set") });
            },
        }
        match self.env_vars.get("TMPDIR") {
            Some(t) => {
                if !starts_with_path(t.as_str(), self.build_prefix.as_str()) {
                    return Err(BuildError::SandboxViolation { message: owned("TMPDIR not pointing to isolated directory") });
                }
            },
            None => {
                return Err(BuildError::SandboxViolation { message: owned("TMPDIR environment variable not set") });
            },
        }
        if !config.allow_network {
            let names: Vec<&str> = vec!["http_proxy", "https_proxy", "HTTP_PROXY", "HTTPS_PROXY"];
            assert(name_views(names@) =~= proxy_vars());
            let mut n: usize = 0;
            while n < 4
                invariant
                    n <= 4,
                    names@.len() == 4,
                    name_views(names@) == proxy_vars(),
                    self.wf(),
                    first_bad_proxy(self.env_vars@, 0) == first_bad_proxy(self.env_vars@, n as int),
                decreases 4 - n,
            {
                assert(proxy_vars()[n as int] == names@[n as int]@);
                match self.env_vars.get(names[n]) {
                    Some(v) => {
                        if !contains_str(to_chars(v.as_str()).as_slice(), "127.0.0.1:1") {
                            return Err(
                                BuildError::SandboxViolation {
                                    message: concat("Network isolation not properly configured: ", names[n]),
                                },
                            );
                        }
                    },
                    None => {
                        return Err(
                            BuildError::SandboxViolation { message: concat("Network isolation variable not set: ", names[n]) },
                        );
                    },
                }
                n = n + 1;
            }
        }
        Ok(())
    }
}

fn eq_text(s: &String, t: &str) -> (r: bool)
    ensures
        r == (s@ == t@),
{
    crate::text::eq_str(to_chars(s.as_str()).as_slice(), t)
}

/// Network isolation, once applied, is what the isolation check looks for:
/// every proxy variable it reads points at the dead proxy.
pub proof fn lemma_network_isolation_verified(m: Map<Seq<char>, Seq<char>>)
    ensures
        network_isolated(network_isolated_vars(m)),
{
    reveal_strlit("http://127.0.0.1:1");
    reveal_strlit("127.0.0.1:1");
    reveal_strlit("http_proxy");
    reveal_strlit("https_proxy");
    reveal_strlit("HTTP_PROXY");
    reveal_strlit("HTTPS_PROXY");
    reveal_strlit("ftp_proxy");
    reveal_strlit("all_proxy");
    reveal_strlit("FTP_PROXY");
    reveal_strlit("ALL_PROXY");
    reveal_strlit("no_proxy");
    reveal_strlit("NO_PROXY");
    let n = network_isolated_vars(m);
    let d = dead_proxy();
    assert(crate::text::occurs_at(d, "127.0.0.1:1"@, 7)) by {
        assert(d.subrange(7, 18) =~= "127.0.0.1:1"@);
    }
    assert forall|i: int| 0 <= i < 4 implies n.contains_key(#[trigger] proxy_vars()[i]) && contains(
        n[proxy_vars()[i]],
        "127.0.0.1:1"@,
    ) by {
        if i == 0 {
            assert("http_proxy"@.len() != "no_proxy"@.len());
            assert("http_proxy"@.len() != "NO_PROXY"@.len());
        } else if i == 1 {
            assert("https_proxy"@.len() != "no_proxy"@.len());
            assert("https_proxy"@.len() != "NO_PROXY"@.len());
        } else if i == 2 {
            assert("HTTP_PROXY"@.len() != "no_proxy"@.len());
            assert("HTTP_PROXY"@.len() != "NO_PROXY"@.len());
        } else {
            assert("HTTPS_PROXY"@.len() != "no_proxy"@.len());
            assert("HTTPS_PROXY"@.len() != "NO_PROXY"@.len());
        }
        assert(n[proxy_vars()[i]] == d);
    }
}

} // verus!
