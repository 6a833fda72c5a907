//! Checks that a build environment is isolated from the host: its
//! directories and required variables are there, no variable that leaks the
//! host in is set, its flags and `PATH` point at its own dependencies, and
//! its directories stay inside the allowed prefixes.
use crate::environment::build_env::BuildEnvironment;
use crate::errors::BuildError;
use crate::paths::{full_components, path_join, path_starts_with, starts_with_path};
use crate::string_map::StringMap;
use crate::text::{concat, contains, contains_str, owned, split_char, split_on, to_chars};
use vstd::prelude::*;

verus! {

/// The variables every isolated build sets.
pub open spec fn required_vars() -> Seq<Seq<char>> {
    seq!["PREFIX"@, "DESTDIR"@, "JOBS"@]
}

/// Variables that would let the host's libraries or tools leak into a build.
pub open spec fn dangerous_vars() -> Seq<Seq<char>> {
    seq![
        "LD_LIBRARY_PATH"@,
        "DYLD_LIBRARY_PATH"@,
        "DYLD_FALLBACK_LIBRARY_PATH"@,
        "DYLD_INSERT_LIBRARIES"@,
        "LD_PRELOAD"@,
        "PYTHONPATH"@,
        "PERL5LIB"@,
        "RUBYLIB"@,
        "NODE_PATH"@,
        "GOPATH"@,
        "CARGO_HOME"@,
    ]
}

/// The first of the names that the map holds, from `from` on.
pub open spec fn first_present(m: Map<Seq<char>, Seq<char>>, names: Seq<Seq<char>>, from: int) -> Option<Seq<char>>
    decreases names.len() - from,
{
    if from < 0 || from >= names.len() {
        None
    } else if m.contains_key(names[from]) {
        Some(names[from])
    } else {
        first_present(m, names, from + 1)
    }
}

/// The first of the names that the map lacks, from `from` on.
pub open spec fn first_missing(m: Map<Seq<char>, Seq<char>>, names: Seq<Seq<char>>, from: int) -> Option<Seq<char>>
    decreases names.len() - from,
{
    if from < 0 || from >= names.len() {
        None
    } else if !m.contains_key(names[from]) {
        Some(names[from])
    } else {
        first_missing(m, names, from + 1)
    }
}

/// The message of the basic checks that fail, if one does.
pub open spec fn basic_isolation_message(env: BuildEnvironment, prefix_exists: bool, staging_exists: bool) -> Option<Seq<char>> {
    if !prefix_exists {
        Some("Build prefix does not exist: "@ + env.build_prefix@)
    } else if !staging_exists {
        Some("Staging directory does not exist: "@ + env.staging_dir@)
    } else {
        match first_missing(env.env_vars@, required_vars(), 0) {
            Some(v) => Some("Required environment variable "@ + v + " not set"@),
            None => if !env.env_vars@.contains_key("PATH"@) {
                Some("PATH environment variable not set"@)
            } else {
                None
            },
        }
    }
}

/// The message of the flag checks that fail, if one does: `CFLAGS` and
/// `LDFLAGS`, where set, name the dependencies' include and library
/// directories (the real ones or those under the placeholder prefix), and
/// `CFLAGS` names no `/usr/local`.
pub open spec fn compiler_flags_message(env: BuildEnvironment, placeholder: Seq<char>) -> Option<Seq<char>> {
    let deps = path_join(env.build_prefix@, "deps"@);
    let vars = env.env_vars@;
    if vars.contains_key("CFLAGS"@) && !contains(vars["CFLAGS"@], deps + "/include"@) && !contains(
        vars["CFLAGS"@],
        placeholder + "/deps/include"@,
    ) {
        Some("CFLAGS not properly configured for isolation"@)
    } else if vars.contains_key("CFLAGS"@) && contains(vars["CFLAGS"@], "/usr/local"@) {
        Some("CFLAGS contains system paths"@)
    } else if vars.contains_key("LDFLAGS"@) && !contains(vars["LDFLAGS"@], deps + "/lib"@) && !contains(
        vars["LDFLAGS"@],
        placeholder + "/deps/lib"@,
    ) {
        Some("LDFLAGS not properly configured for isolation"@)
    } else {
        None
    }
}

/// The message of the sanitization checks that fail, if one does: no
/// dangerous variable is set, and the flags are clean.
pub open spec fn sanitization_message(env: BuildEnvironment, placeholder: Seq<char>) -> Option<Seq<char>> {
    match first_present(env.env_vars@, dangerous_vars(), 0) {
        Some(v) => Some("Dangerous environment variable "@ + v + " is set"@),
        None => compiler_flags_message(env, placeholder),
    }
}

/// The message of the `PATH` check that fails, if it does: `PATH` is set,
/// and where the dependencies' `bin` directory exists it comes first.
pub open spec fn path_isolation_message(env: BuildEnvironment, deps_bin_exists: bool) -> Option<Seq<char>> {
    if !env.env_vars@.contains_key("PATH"@) {
        Some("PATH not set"@)
    } else if deps_bin_exists && full_components(split_char(env.env_vars@["PATH"@], ':')[0]) != full_components(
        path_join(path_join(env.build_prefix@, "deps"@), "bin"@),
    ) {
        Some("deps/bin not first in PATH"@)
    } else {
        None
    }
}

/// Whether a directory lies under the build prefix or `/opt/pm`.
pub open spec fn inside_allowed(env: BuildEnvironment, dir: Seq<char>) -> bool {
    path_starts_with(dir, env.build_prefix@) || path_starts_with(dir, "/opt/pm"@)
}

/// The message of the containment checks that fail, if one does.
pub open spec fn system_path_message(env: BuildEnvironment) -> Option<Seq<char>> {
    let deps = path_join(env.build_prefix@, "deps"@);
    if !inside_allowed(env, env.staging_dir@) {
        Some("Staging directory "@ + env.staging_dir@ + " is outside allowed paths"@)
    } else if !inside_allowed(env, deps) {
        Some("Dependencies directory "@ + deps + " is outside allowed paths"@)
    } else {
        None
    }
}

/// Whether a result is the error of a message: a failed build for the
/// basic checks, a sandbox violation for the others.
pub open spec fn fails_with(r: Result<(), BuildError>, msg: Option<Seq<char>>, sandbox: bool) -> bool {
    match msg {
        None => r is Ok,
        Some(m) => if sandbox {
            r matches Err(BuildError::SandboxViolation { message }) && message@ == m
        } else {
            r matches Err(BuildError::Failed { message }) && message@ == m
        },
    }
}

/// The proxy variables a network-isolated build points at a dead address.
pub open spec fn proxy_vars() -> Seq<Seq<char>> {
    seq!["http_proxy"@, "https_proxy"@, "HTTP_PROXY"@, "HTTPS_PROXY"@]
}

/// Whether the network is cut off: every proxy variable is set and points
/// at `127.0.0.1:1`.
pub open spec fn network_isolated(vars: Map<Seq<char>, Seq<char>>) -> bool {
    forall|i: int| 0 <= i < 4 ==> vars.contains_key(#[trigger] proxy_vars()[i]) && contains(
        vars[proxy_vars()[i]],
        "127.0.0.1:1"@,
    )
}

fn first_present_exec(m: &StringMap, names: &Vec<&str>) -> (r: Option<String>)
    requires
        m.wf(),
    ensures
        match r {
            Some(v) => first_present(m@, crate::environment::build_env::name_views(names@), 0) == Some(v@),
            None => first_present(m@, crate::environment::build_env::name_views(names@), 0) is None,
        },
{
    let ghost ns = crate::environment::build_env::name_views(names@);
    let mut i: usize = 0;
    while i < names.len()
        invariant
            i <= names@.len(),
            ns == crate::environment::build_env::name_views(names@),
            m.wf(),
            first_present(m@, ns, 0) == first_present(m@, ns, i as int),
        decreases names@.len() - i,
    {
        if m.contains_key(names[i]) {
            return Some(owned(names[i]));
        }
        i = i + 1;
    }
    None
}

fn first_missing_exec(m: &StringMap, names: &Vec<&str>) -> (r: Option<String>)
    requires
        m.wf(),
    ensures
        match r {
            Some(v) => first_missing(m@, crate::environment::build_env::name_views(names@), 0) == Some(v@),
            None => first_missing(m@, crate::environment::build_env::name_views(names@), 0) is None,
        },
{
    let ghost ns = crate::environment::build_env::name_views(names@);
    let mut i: usize = 0;
    while i < names.len()
        invariant
            i <= names@.len(),
            ns == crate::environment::build_env::name_views(names@),
            m.wf(),
            first_missing(m@, ns, 0) == first_missing(m@, ns, i as int),
        decreases names@.len() - i,
    {
        if !m.contains_key(names[i]) {
            return Some(owned(names[i]));
        }
        i = i + 1;
    }
    None
}

fn three(a: &str, b: &str, c: &str) -> (r: String)
    ensures
        r@ == a@ + b@ + c@,
{
    let x = concat(a, b);
    concat(x.as_str(), c)
}

fn same_path(a: &str, b: &str) -> (r: bool)
    ensures
        r == (full_components(a@) == full_components(b@)),
{
    let r = starts_with_path(a, b) && starts_with_path(b, a);
    proof {
        let fa = full_components(a@);
        let fb = full_components(b@);
        assert(fa.take(fa.len() as int) =~= fa);
        assert(fb.take(fb.len() as int) =~= fb);
    }
    r
}

impl BuildEnvironment {
    /// The basic checks, given whether the build prefix and the staging
    /// directory exist.
    pub fn verify_basic_isolation(&self, prefix_exists: bool, staging_exists: bool) -> (r: Result<(), BuildError>)
        requires
            self.wf(),
        ensures
            fails_with(r, basic_isolation_message(*self, prefix_exists, staging_exists), false),
    {
        if !prefix_exists {
            return Err(BuildError::Failed { message: concat("Build prefix does not exist: ", self.build_prefix.as_str()) });
        }
        if !staging_exists {
            return Err(
                BuildError::Failed { message: concat("Staging directory does not exist: ", self.staging_dir.as_str()) },
            );
        }
        let required: Vec<&str> = vec!["PREFIX", "DESTDIR", "JOBS"];
        assert(crate::environment::build_env::name_views(required@) =~= required_vars());
        match first_missing_exec(&self.env_vars, &required) {
            Some(v) => {
                return Err(
                    BuildError::Failed { message: three("Required environment variable ", v.as_str(), " not set") },
                );
            },
            None => {},
        }
        if !self.env_vars.contains_key("PATH") {
            return Err(BuildError::Failed { message: owned("PATH environment variable not set") });
        }
        Ok(())
    }

    /// The flag checks, with the placeholder prefix that stands for the
    /// dependencies in relocatable builds.
    pub fn verify_compiler_flags(&self, placeholder: &str) -> (r: Result<(), BuildError>)
        requires
            self.wf(),
        ensures
            fails_with(r, compiler_flags_message(*self, placeholder@), true),
    {
        let deps = self.deps_prefix();
        match self.env_vars.get("CFLAGS") {
            Some(c) => {
                let cv = to_chars(c.as_str());
                let a = concat(deps.as_str(), "/include");
                let b = concat(placeholder, "/deps/include");
                if !contains_str(cv.as_slice(), a.as_str()) && !contains_str(cv.as_slice(), b.as_str()) {
                    return Err(BuildError::SandboxViolation { message: owned("CFLAGS not properly configured for isolation") });
                }
                if contains_str(cv.as_slice(), "/usr/local") {
                    return Err(BuildError::SandboxViolation { message: owned("CFLAGS contains system paths") });
                }
            },
            None => {},
        }
        match self.env_vars.get("LDFLAGS") {
            Some(l) => {
                let lv = to_chars(l.as_str());
                let a = concat(deps.as_str(), "/lib");
                let b = concat(placeholder, "/deps/lib");
                if !contains_str(lv.as_slice(), a.as_str()) && !contains_str(lv.as_slice(), b.as_str()) {
                    return Err(BuildError::SandboxViolation { message: owned("LDFLAGS not properly configured for isolation") });
                }
            },
            None => {},
        }
        Ok(())
    }

    /// The sanitization checks.
    pub fn verify_environment_sanitization(&self, placeholder: &str) -> (r: Result<(), BuildError>)
        requires
            self.wf(),
        ensures
            fails_with(r, sanitization_message(*self, placeholder@), true),
    {
        let dangerous: Vec<&str> = vec![
            "LD_LIBRARY_PATH",
            "DYLD_LIBRARY_PATH",
            "DYLD_FALLBACK_LIBRARY_PATH",
            "DYLD_INSERT_LIBRARIES",
            "LD_PRELOAD",
            "PYTHONPATH",
            "PERL5LIB",
            "RUBYLIB",
            "NODE_PATH",
            "GOPATH",
            "CARGO_HOME",
        ];
        assert(crate::environment::build_env::name_views(dangerous@) =~= dangerous_vars());
        match first_present_exec(&self.env_vars, &dangerous) {
            Some(v) => Err(
                BuildError::SandboxViolation { message: three("Dangerous environment variable ", v.as_str(), " is set") },
            ),
            None => self.verify_compiler_flags(placeholder),
        }
    }

    /// The `PATH` check, given whether the dependencies' `bin` directory exists.
    pub fn verify_path_isolation(&self, deps_bin_exists: bool) -> (r: Result<(), BuildError>)
        requires
            self.wf(),
        ensures
            fails_with(r, path_isolation_message(*self, deps_bin_exists), true),
    {
        match self.env_vars.get("PATH") {
            Some(p) => {
                let pieces = split_on(to_chars(p.as_str()).as_slice(), ':');
                assert(crate::text::views(pieces@).len() >= 1);
                assert(crate::text::views(pieces@)[0] == pieces@[0]@);
                let first = crate::text::from_chars(pieces[0].as_slice());
                let deps = self.deps_prefix();
                let deps_bin = crate::paths::join(deps.as_str(), "bin");
                if deps_bin_exists && !same_path(first.as_str(), deps_bin.as_str()) {
                    return Err(BuildError::SandboxViolation { message: owned("deps/bin not first in PATH") });
                }
                Ok(())
            },
            None => Err(BuildError::SandboxViolation { message: owned("PATH not set") }),
        }
    }

    /// The containment checks: the staging and dependencies directories lie
    /// under the build prefix or `/opt/pm`.
    pub fn verify_system_path_isolation(&self) -> (r: Result<(), BuildError>)
        ensures
            fails_with(r, system_path_message(*self), true),
    {
        let staging_ok = starts_with_path(self.staging_dir.as_str(), self.build_prefix.as_str()) || starts_with_path(
            self.staging_dir.as_str(),
            "/opt/pm",
        );
        if !staging_ok {
            return Err(
                BuildError::SandboxViolation {
                    message: three("Staging directory ", self.staging_dir.as_str(), " is outside allowed paths"),
                },
            );
        }
        let deps = self.deps_prefix();
        let deps_ok = starts_with_path(deps.as_str(), self.build_prefix.as_str()) || starts_with_path(deps.as_str(), "/opt/pm");
        if !deps_ok {
            return Err(
                BuildError::SandboxViolation {
                    message: three("Dependencies directory ", deps.as_str(), " is outside allowed paths"),
                },
            );
        }
        Ok(())
    }

    /// All isolation checks in turn; the first that fails gives the error.
    pub fn verify_isolation(
        &self,
        prefix_exists: bool,
        staging_exists: bool,
        deps_bin_exists: bool,
        placeholder: &str,
    ) -> (r: Result<(), BuildError>)
        requires
            self.wf(),
        ensures
            basic_isolation_message(*self, prefix_exists, staging_exists) is Some ==> fails_with(
                r,
                basic_isolation_message(*self, prefix_exists, staging_exists),
                false,
            ),
            basic_isolation_message(*self, prefix_exists, staging_exists) is None && sanitization_message(
                *self,
                placeholder@,
            ) is Some ==> fails_with(r, sanitization_message(*self, placeholder@), true),
            basic_isolation_message(*self, prefix_exists, staging_exists) is None && sanitization_message(
                *self,
                placeholder@,
            ) is None ==> (if path_isolation_message(*self, deps_bin_exists) is Some {
                fails_with(r, path_isolation_message(*self, deps_bin_exists), true)
            } else {
                fails_with(r, system_path_message(*self), true)
            }),
    {
        self.verify_basic_isolation(prefix_exists, staging_exists)?;
        self.verify_environment_sanitization(placeholder)?;
        self.verify_path_isolation(deps_bin_exists)?;
        self.verify_system_path_isolation()
    }

    /// Whether the network is cut off by dead proxies.
    pub fn verify_network_isolation(&self) -> (r: bool)
        requires
            self.wf(),
        ensures
            r == network_isolated(self.env_vars@),
    {
        let names: Vec<&str> = vec!["http_proxy", "https_proxy", "HTTP_PROXY", "HTTPS_PROXY"];
        assert(crate::environment::build_env::name_views(names@) =~= proxy_vars());
        for i in 0..names.len()
            invariant
                names@.len() == 4,
                crate::environment::build_env::name_views(names@) == proxy_vars(),
                self.wf(),
                forall|k: int| 0 <= k < i ==> self.env_vars@.contains_key(#[trigger] proxy_vars()[k]) && contains(
                    self.env_vars@[proxy_vars()[k]],
                    "127.0.0.1:1"@,
                ),
        {
            assert(proxy_vars()[i as int] == names@[i as int]@);
            match self.env_vars.get(names[i]) {
                Some(v) => {
                    if !contains_str(to_chars(v.as_str()).as_slice(), "127.0.0.1:1") {
                        return false;
                    }
                },
                None => {
                    return false;
                },
            }
        }
        true
    }
}

/// How a check is summarized: `OK`, or `FAILED: ` and the error's text.
pub open spec fn check_status(msg: Option<Seq<char>>, sandbox: bool) -> Seq<char> {
    match msg {
        None => "OK"@,
        Some(m) => "FAILED: "@ + ((if sandbox { "Sandbox violation: "@ } else { "Build failed: "@ }) + m),
    }
}

fn status_text(r: Result<(), BuildError>) -> (s: String)
    ensures
        s@ == match r {
            Ok(()) => "OK"@,
            Err(e) => "FAILED: "@ + crate::errors::error_text(e),
        },
{
    match r {
        Ok(()) => owned("OK"),
        Err(e) => concat("FAILED: ", e.describe().as_str()),
    }
}

impl BuildEnvironment {
    /// A summary of the isolation checks and the build's directories.
    pub fn isolation_summary(
        &self,
        prefix_exists: bool,
        staging_exists: bool,
        deps_bin_exists: bool,
        placeholder: &str,
    ) -> (r: StringMap)
        requires
            self.wf(),
        ensures
            r.wf(),
            r@ == Map::<Seq<char>, Seq<char>>::empty()
                .insert("basic_isolation"@, check_status(basic_isolation_message(*self, prefix_exists, staging_exists), false))
                .insert("env_sanitization"@, check_status(sanitization_message(*self, placeholder@), true))
                .insert("path_isolation"@, check_status(path_isolation_message(*self, deps_bin_exists), true))
                .insert(
                    "network_isolation"@,
                    if network_isolated(self.env_vars@) { "ENABLED"@ } else { "DISABLED"@ },
                )
                .insert("build_prefix"@, self.build_prefix@)
                .insert("staging_dir"@, self.staging_dir@)
                .insert("deps_prefix"@, path_join(self.build_prefix@, "deps"@)),
    {
        let mut m = StringMap::new();
        let a = status_text(self.verify_basic_isolation(prefix_exists, staging_exists));
        assert(a@ == check_status(basic_isolation_message(*self, prefix_exists, staging_exists), false));
        m.insert(owned("basic_isolation"), a);
        let b = status_text(self.verify_environment_sanitization(placeholder));
        assert(b@ == check_status(sanitization_message(*self, placeholder@), true));
        m.insert(owned("env_sanitization"), b);
        let c = status_text(self.verify_path_isolation(deps_bin_exists));
        assert(c@ == check_status(path_isolation_message(*self, deps_bin_exists), true));
        m.insert(owned("path_isolation"), c);
        let net = if self.verify_network_isolation() { owned("ENABLED") } else { owned("DISABLED") };
        m.insert(owned("network_isolation"), net);
        m.insert(owned("build_prefix"), self.build_prefix.clone());
        m.insert(owned("staging_dir"), self.staging_dir.clone());
        m.insert(owned("deps_prefix"), self.deps_prefix());
        m
    }
}

} // verus!
