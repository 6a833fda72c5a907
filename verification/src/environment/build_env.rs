//! The build environment of one package: its prefixes, the environment
//! variables that its build commands see, and what the build records on the way.
use crate::paths::{join, path_join};
use crate::string_map::StringMap;
use crate::text::{concat, decimal, owned, string_views, usize_to_string};
use vstd::prelude::*;

verus! {

/// `num_cpus::get`: the number of CPUs this process may use, at least one
/// as the crate documents; which number it is depends on the machine.
#[verifier::external_body]
fn available_cpus() -> (n: usize)
    ensures
        n >= 1,
{
    num_cpus::get()
}

/// Three quarters of the cores, rounded up, and at least one.
pub open spec fn jobs_for(cores: usize) -> usize {
    let tripled = if cores * 3 > usize::MAX { usize::MAX as int } else { cores * 3 };
    let padded = if tripled + 3 > usize::MAX { usize::MAX as int } else { tripled + 3 };
    let target = padded / 4;
    if target < 1 { 1 } else { target as usize }
}

/// The number of parallel jobs for a machine with `cores` cores.
pub fn jobs_for_cores(cores: usize) -> (r: usize)
    ensures
        r == jobs_for(cores),
{
    let tripled = if cores > usize::MAX / 3 { usize::MAX } else { cores * 3 };
    let padded = if tripled > usize::MAX - 3 { usize::MAX } else { tripled + 3 };
    let target = padded / 4;
    if target < 1 { 1 } else { target }
}

/// Three quarters of the cores never exceed the cores, and a build always
/// has at least one job.
pub proof fn lemma_jobs_bounded(cores: usize)
    requires
        cores >= 1,
    ensures
        1 <= jobs_for(cores) <= cores,
{
}

/// The build environment of one package.
#[derive(Clone, Debug)]
pub struct BuildEnvironment {
    /// Package name
    pub name: String,
    /// Package version, as text
    pub version: String,
    /// Where the finished package goes, once known
    pub package_path: Option<String>,
    /// Build prefix directory
    pub build_prefix: String,
    /// Staging directory for installation
    pub staging_dir: String,
    /// Environment variables
    pub env_vars: StringMap,
    /// Build metadata recorded by build systems
    pub build_metadata: StringMap,
    /// Whether the default compiler flags were applied
    pub with_defaults_called: bool,
    /// Build systems used during the build, each once
    pub used_build_systems: Vec<String>,
    /// Paths whose permissions were asked to be fixed, if that was asked
    pub fix_permissions_request: Option<Vec<String>>,
}

/// The directory under the build root where a package builds.
pub open spec fn build_prefix_path(root: Seq<char>, name: Seq<char>, version: Seq<char>) -> Seq<char> {
    path_join(path_join(root, name), version)
}

/// The initial variables of a build environment.
pub open spec fn initial_vars(staging: Seq<char>, jobs: usize) -> Map<Seq<char>, Seq<char>> {
    Map::<Seq<char>, Seq<char>>::empty()
        .insert("PREFIX"@, "/opt/pm/live"@)
        .insert("DESTDIR"@, staging)
        .insert("JOBS"@, decimal(jobs as nat))
}

/// Copies the named host variables that the host has.
pub open spec fn copy_present(
    m: Map<Seq<char>, Seq<char>>,
    host: Map<Seq<char>, Seq<char>>,
    names: Seq<Seq<char>>,
) -> Map<Seq<char>, Seq<char>>
    decreases names.len(),
{
    if names.len() == 0 {
        m
    } else {
        let m2 = copy_present(m, host, names.drop_last());
        if host.contains_key(names.last()) {
            m2.insert(names.last(), host[names.last()])
        } else {
            m2
        }
    }
}

/// Removes each of the named keys.
pub open spec fn remove_all(m: Map<Seq<char>, Seq<char>>, names: Seq<Seq<char>>) -> Map<Seq<char>, Seq<char>>
    decreases names.len(),
{
    if names.len() == 0 {
        m
    } else {
        remove_all(m, names.drop_last()).remove(names.last())
    }
}

/// The host variables that a clean build keeps, besides `PATH`.
pub open spec fn kept_host_vars() -> Seq<Seq<char>> {
    seq!["HOME"@, "USER"@, "SHELL"@, "TERM"@, "LANG"@, "LC_ALL"@, "TMPDIR"@, "TMP"@, "TEMP"@]
}

/// The variables that a clean build drops.
pub open spec fn dropped_vars() -> Seq<Seq<char>> {
    seq![
        "CFLAGS"@,
        "CPPFLAGS"@,
        "LDFLAGS"@,
        "PKG_CONFIG_PATH"@,
        "LIBRARY_PATH"@,
        "LD_LIBRARY_PATH"@,
        "DYLD_LIBRARY_PATH"@,
        "CMAKE_PREFIX_PATH"@,
        "ACLOCAL_PATH"@,
    ]
}

/// The variables of a clean build: a minimal `PATH`, the kept host
/// variables, and none of the dropped ones.
pub open spec fn clean_vars(m: Map<Seq<char>, Seq<char>>, host: Map<Seq<char>, Seq<char>>) -> Map<Seq<char>, Seq<char>> {
    remove_all(
        copy_present(m.insert("PATH"@, "/usr/bin:/bin:/usr/sbin:/sbin:/opt/pm/live/bin"@), host, kept_host_vars()),
        dropped_vars(),
    )
}

/// The variables that the base setup writes over a clean build.
pub open spec fn base_vars(
    clean: Map<Seq<char>, Seq<char>>,
    staging: Seq<char>,
    build_prefix: Seq<char>,
    jobs: usize,
    make_jobs: usize,
    is_macos: bool,
) -> Map<Seq<char>, Seq<char>> {
    clean
        .insert("DESTDIR"@, staging)
        .insert("PREFIX"@, "/opt/pm/live"@)
        .insert("BUILD_PREFIX"@, build_prefix)
        .insert("JOBS"@, decimal(jobs as nat))
        .insert("MAKEFLAGS"@, "-j"@ + decimal(make_jobs as nat))
        .insert("CFLAGS"@, "-I/opt/pm/live/include"@)
        .insert("CPPFLAGS"@, "-I/opt/pm/live/include"@)
        .insert(
            "LDFLAGS"@,
            if is_macos { "-L/opt/pm/live/lib -headerpad_max_install_names"@ } else { "-L/opt/pm/live/lib"@ },
        )
        .insert("LIBRARY_PATH"@, "/opt/pm/live/lib"@)
        .insert("MACOSX_DEPLOYMENT_TARGET"@, "12.0"@)
}

/// Flags put before what a variable held: the flags alone where it held
/// nothing.
pub open spec fn merged_flags(m: Map<Seq<char>, Seq<char>>, key: Seq<char>, flags: Seq<char>) -> Seq<char> {
    if m.contains_key(key) && m[key].len() > 0 {
        flags + " "@ + m[key]
    } else {
        flags
    }
}

/// Merges flags into a variable.
pub open spec fn merge_into(m: Map<Seq<char>, Seq<char>>, key: Seq<char>, flags: Seq<char>) -> Map<Seq<char>, Seq<char>> {
    m.insert(key, merged_flags(m, key, flags))
}

/// The C flags of an optimized build.
pub open spec fn default_cflags(apple_silicon: bool) -> Seq<char> {
    if apple_silicon {
        "-O2 -pipe -fstack-protector-strong -mcpu=apple-m1 -mtune=native"@
    } else {
        "-O2 -pipe -fstack-protector-strong"@
    }
}

/// The variables after the default compiler flags are applied.
pub open spec fn default_flag_vars(m: Map<Seq<char>, Seq<char>>, is_arm64: bool, is_macos: bool) -> Map<Seq<char>, Seq<char>> {
    let apple = is_arm64 && is_macos;
    let m1 = merge_into(m, "CFLAGS"@, default_cflags(apple));
    let m2 = merge_into(m1, "CXXFLAGS"@, default_cflags(apple));
    let m3 = if is_macos { merge_into(m2, "LDFLAGS"@, "-Wl,-dead_strip -headerpad_max_install_names"@) } else { m2 };
    if apple {
        merge_into(m3, "RUSTFLAGS"@, "-C target-cpu=apple-m1 -C opt-level=2"@)
            .insert("GOFLAGS"@, "-buildmode=pie"@)
            .insert("ARCHFLAGS"@, "-arch arm64"@)
            .insert("CMAKE_OSX_ARCHITECTURES"@, "arm64"@)
    } else {
        m3
    }
}

/// The keys that an environment summary copies from the variables.
pub open spec fn summary_keys() -> Seq<Seq<char>> {
    seq!["PATH"@, "PKG_CONFIG_PATH"@, "CMAKE_PREFIX_PATH"@, "CFLAGS"@, "LDFLAGS"@]
}

/// The views of a sequence of names.
pub open spec fn name_views(v: Seq<&str>) -> Seq<Seq<char>> {
    v.map_values(|s: &str| s@)
}

/// Copies into `m` those of the named keys that `src` has.
fn copy_present_exec(m: &mut StringMap, src: &StringMap, names: &Vec<&str>)
    requires
        old(m).wf(),
        src.wf(),
    ensures
        final(m).wf(),
        final(m)@ == copy_present(old(m)@, src@, name_views(names@)),
{
    let ghost start = m@;
    for i in 0..names.len()
        invariant
            m.wf(),
            src.wf(),
            m@ == copy_present(start, src@, name_views(names@).take(i as int)),
    {
        let ghost prev = name_views(names@).take(i as int);
        assert(name_views(names@).take(i + 1).drop_last() =~= prev);
        match src.get(names[i]) {
            Some(v) => {
                m.insert(owned(names[i]), v.clone());
            },
            None => {},
        }
    }
    assert(name_views(names@).take(names@.len() as int) =~= name_views(names@));
}

/// Removes the named keys from `m`.
fn remove_all_exec(m: &mut StringMap, names: &Vec<&str>)
    requires
        old(m).wf(),
    ensures
        final(m).wf(),
        final(m)@ == remove_all(old(m)@, name_views(names@)),
{
    let ghost start = m@;
    for i in 0..names.len()
        invariant
            m.wf(),
            m@ == remove_all(start, name_views(names@).take(i as int)),
    {
        assert(name_views(names@).take(i + 1).drop_last() =~= name_views(names@).take(i as int));
        m.remove(names[i]);
    }
    assert(name_views(names@).take(names@.len() as int) =~= name_views(names@));
}

/// `flags`, or `flags` before what the variable held.
fn merge_flags_exec(m: &mut StringMap, key: &str, flags: &str)
    requires
        old(m).wf(),
    ensures
        final(m).wf(),
        final(m)@ == merge_into(old(m)@, key@, flags@),
{
    let merged = match m.get(key) {
        Some(existing) => if crate::text::to_chars(existing.as_str()).len() == 0 {
            owned(flags)
        } else {
            let a = concat(flags, " ");
            concat(a.as_str(), existing.as_str())
        },
        None => owned(flags),
    };
    m.insert(owned(key), merged);
}

impl BuildEnvironment {
    /// Its maps are well formed and no build system is recorded twice.
    pub open spec fn wf(&self) -> bool {
        &&& self.env_vars.wf()
        &&& self.build_metadata.wf()
        &&& string_views(self.used_build_systems@).no_duplicates()
    }

    /// `<build_root>/<name>/<version>`.
    pub fn get_build_prefix_path(build_root: &str, name: &str, version: &str) -> (r: String)
        ensures
            r@ == build_prefix_path(build_root@, name@, version@),
    {
        let a = join(build_root, name);
        join(a.as_str(), version)
    }

    /// The number of parallel jobs for this machine: three quarters of its
    /// CPUs, at least one.
    pub fn cpu_count() -> (r: usize)
        ensures
            r >= 1,
    {
        jobs_for_cores(available_cpus())
    }

    /// A new environment for a package, building with the given number of jobs.
    pub fn new_with_jobs(name: &str, version: &str, build_root: &str, jobs: usize) -> (r: Self)
        ensures
            r.wf(),
            r.name@ == name@,
            r.version@ == version@,
            r.package_path.is_none(),
            r.build_prefix@ == build_prefix_path(build_root@, name@, version@),
            r.staging_dir@ == path_join(build_prefix_path(build_root@, name@, version@), "stage"@),
            r.env_vars@ == initial_vars(r.staging_dir@, jobs),
            r.build_metadata@ == Map::<Seq<char>, Seq<char>>::empty(),
            !r.with_defaults_called,
            r.used_build_systems@.len() == 0,
            r.fix_permissions_request.is_none(),
    {
        let build_prefix = Self::get_build_prefix_path(build_root, name, version);
        let staging_dir = join(build_prefix.as_str(), "stage");
        let mut env_vars = StringMap::new();
        env_vars.insert(owned("PREFIX"), owned("/opt/pm/live"));
        env_vars.insert(owned("DESTDIR"), staging_dir.clone());
        env_vars.insert(owned("JOBS"), usize_to_string(jobs));
        let r = BuildEnvironment {
            name: owned(name),
            version: owned(version),
            package_path: None,
            build_prefix,
            staging_dir,
            env_vars,
            build_metadata: StringMap::new(),
            with_defaults_called: false,
            used_build_systems: Vec::new(),
            fix_permissions_request: None,
        };
        assert(string_views(r.used_build_systems@) =~= Seq::<Seq<char>>::empty());
        r
    }

    /// A new environment for a package, with as many jobs as `cpu_count` gives.
    pub fn new(name: &str, version: &str, build_root: &str) -> (r: Self)
        ensures
            r.wf(),
            r.name@ == name@,
            r.version@ == version@,
            r.build_prefix@ == build_prefix_path(build_root@, name@, version@),
            r.staging_dir@ == path_join(build_prefix_path(build_root@, name@, version@), "stage"@),
            exists|jobs: usize| jobs >= 1 && r.env_vars@ == initial_vars(r.staging_dir@, jobs),
            r.build_metadata@ == Map::<Seq<char>, Seq<char>>::empty(),
            !r.with_defaults_called,
            r.used_build_systems@.len() == 0,
            r.fix_permissions_request.is_none(),
    {
        let jobs = Self::cpu_count();
        Self::new_with_jobs(name, version, build_root, jobs)
    }

    /// `/<name>-<version>`: the package's own prefix in the staging tree.
    pub fn get_build_prefix(&self) -> (r: String)
        ensures
            r@ == "/"@ + self.name@ + "-"@ + self.version@,
    {
        let a = concat("/", self.name.as_str());
        let b = concat(a.as_str(), "-");
        concat(b.as_str(), self.version.as_str())
    }

    /// The prefix where packages live at run time.
    pub fn get_live_prefix(&self) -> (r: &'static str)
        ensures
            r@ == "/opt/pm/live"@,
    {
        "/opt/pm/live"
    }

    /// The staging directory.
    pub fn staging_dir(&self) -> (r: &String)
        ensures
            r == &self.staging_dir,
    {
        &self.staging_dir
    }

    /// The build prefix directory.
    pub fn build_prefix(&self) -> (r: &String)
        ensures
            r == &self.build_prefix,
    {
        &self.build_prefix
    }

    /// The directory of the build's dependencies, under its build prefix.
    pub fn deps_prefix(&self) -> (r: String)
        ensures
            r@ == path_join(self.build_prefix@, "deps"@),
    {
        join(self.build_prefix.as_str(), "deps")
    }

    /// The environment variables.
    pub fn env_vars(&self) -> (r: &StringMap)
        ensures
            r == &self.env_vars,
    {
        &self.env_vars
    }

    /// The package name.
    pub fn package_name(&self) -> (r: &String)
        ensures
            r == &self.name,
    {
        &self.name
    }

    /// The path of the finished package, once known.
    pub fn package_path(&self) -> (r: Option<&String>)
        ensures
            r == match &self.package_path {
                Some(p) => Some(p),
                None => None::<&String>,
            },
    {
        match &self.package_path {
            Some(p) => Some(p),
            None => None,
        }
    }

    /// Sets an environment variable; it never fails.
    pub fn set_env_var(&mut self, key: String, value: String) -> (r: Result<(), crate::errors::BuildError>)
        requires
            old(self).wf(),
        ensures
            final(self).wf(),
            r is Ok,
            final(self).env_vars@ == old(self).env_vars@.insert(key@, value@),
            final(self).build_metadata == old(self).build_metadata,
            final(self).used_build_systems == old(self).used_build_systems,
    {
        self.env_vars.insert(key, value);
        Ok(())
    }

    /// Whether a build system recorded a Python wheel or build backend.
    pub fn is_python_package(&self) -> (r: bool)
        requires
            self.wf(),
        ensures
            r == (self.build_metadata@.contains_key("PYTHON_WHEEL_PATH"@)
                || self.build_metadata@.contains_key("PYTHON_BUILD_BACKEND"@)),
    {
        self.build_metadata.contains_key("PYTHON_WHEEL_PATH")
            || self.build_metadata.contains_key("PYTHON_BUILD_BACKEND")
    }

    /// A value from the build metadata, else from the environment variables.
    pub fn get_extra_env(&self, key: &str) -> (r: Option<String>)
        requires
            self.wf(),
        ensures
            match r {
                Some(v) => if self.build_metadata@.contains_key(key@) {
                    v@ == self.build_metadata@[key@]
                } else {
                    self.env_vars@.contains_key(key@) && v@ == self.env_vars@[key@]
                },
                None => !self.build_metadata@.contains_key(key@) && !self.env_vars@.contains_key(key@),
            },
    {
        match self.build_metadata.get(key) {
            Some(v) => Some(v.clone()),
            None => match self.env_vars.get(key) {
                Some(v) => Some(v.clone()),
                None => None,
            },
        }
    }

    /// Records build metadata.
    pub fn set_build_metadata(&mut self, key: String, value: String)
        requires
            old(self).wf(),
        ensures
            final(self).wf(),
            final(self).build_metadata@ == old(self).build_metadata@.insert(key@, value@),
            final(self).env_vars == old(self).env_vars,
    {
        self.build_metadata.insert(key, value);
    }

    /// The build metadata.
    pub fn build_metadata(&self) -> (r: &StringMap)
        ensures
            r == &self.build_metadata,
    {
        &self.build_metadata
    }

    /// Records that a build system was used; each is kept once, in the
    /// order first seen.
    pub fn record_build_system(&mut self, build_system: &str)
        requires
            old(self).wf(),
        ensures
            final(self).wf(),
            string_views(old(self).used_build_systems@).contains(build_system@)
                ==> final(self).used_build_systems@ == old(self).used_build_systems@,
            !string_views(old(self).used_build_systems@).contains(build_system@)
                ==> string_views(final(self).used_build_systems@)
                    == string_views(old(self).used_build_systems@).push(build_system@),
            final(self).env_vars == old(self).env_vars,
            final(self).build_metadata == old(self).build_metadata,
    {
        let n = self.used_build_systems.len();
        for i in 0..n
            invariant
                n == self.used_build_systems@.len(),
                self.wf(),
                *self == *old(self),
                forall|j: int| 0 <= j < i ==> self.used_build_systems@[j]@ != build_system@,
        {
            if self.used_build_systems[i] == owned(build_system) {
                assert(string_views(self.used_build_systems@)[i as int] == build_system@);
                return;
            }
        }
        let ghost before = self.used_build_systems@;
        assert(!string_views(before).contains(build_system@)) by {
            if string_views(before).contains(build_system@) {
                let j = choose|j: int| 0 <= j < string_views(before).len() && string_views(before)[j] == build_system@;
                assert(before[j]@ == build_system@);
            }
        }
        self.used_build_systems.push(owned(build_system));
        assert(string_views(self.used_build_systems@) =~= string_views(before).push(build_system@));
    }

    /// The build systems used so far.
    pub fn used_build_systems(&self) -> (r: &Vec<String>)
        ensures
            r == &self.used_build_systems,
    {
        &self.used_build_systems
    }

    /// Records a request to fix permissions; a second request adds its paths
    /// to those of the first.
    pub fn record_fix_permissions_request(&mut self, paths: Vec<String>)
        ensures
            final(self).fix_permissions_request matches Some(v) && v@ == match old(self).fix_permissions_request {
                Some(existing) => existing@ + paths@,
                None => paths@,
            },
            final(self).env_vars == old(self).env_vars,
            final(self).build_metadata == old(self).build_metadata,
            final(self).used_build_systems == old(self).used_build_systems,
    {
        match self.fix_permissions_request.take() {
            Some(mut existing) => {
                let mut p = paths;
                existing.append(&mut p);
                self.fix_permissions_request = Some(existing);
            },
            None => {
                self.fix_permissions_request = Some(paths);
            },
        }
    }

    /// Starts a clean environment: a minimal `PATH`, the host's values of the
    /// kept variables, and none of the flag and search-path variables.
    pub fn setup_clean_environment(&mut self, host: &StringMap)
        requires
            old(self).wf(),
            host.wf(),
        ensures
            final(self).wf(),
            final(self).env_vars@ == clean_vars(old(self).env_vars@, host@),
            final(self).name == old(self).name,
            final(self).version == old(self).version,
            final(self).staging_dir == old(self).staging_dir,
            final(self).build_metadata == old(self).build_metadata,
    {
        self.env_vars.insert(owned("PATH"), owned("/usr/bin:/bin:/usr/sbin:/sbin:/opt/pm/live/bin"));
        let kept: Vec<&str> = vec!["HOME", "USER", "SHELL", "TERM", "LANG", "LC_ALL", "TMPDIR", "TMP", "TEMP"];
        assert(name_views(kept@) =~= kept_host_vars());
        copy_present_exec(&mut self.env_vars, host, &kept);
        let dropped: Vec<&str> = vec![
            "CFLAGS",
            "CPPFLAGS",
            "LDFLAGS",
            "PKG_CONFIG_PATH",
            "LIBRARY_PATH",
            "LD_LIBRARY_PATH",
            "DYLD_LIBRARY_PATH",
            "CMAKE_PREFIX_PATH",
            "ACLOCAL_PATH",
        ];
        assert(name_views(dropped@) =~= dropped_vars());
        remove_all_exec(&mut self.env_vars, &dropped);
    }

    /// Sets up the variables of an isolated build from a clean start, with
    /// the given job counts for `JOBS` and `MAKEFLAGS`.
    pub fn setup_environment_with(&mut self, host: &StringMap, jobs: usize, make_jobs: usize, is_macos: bool)
        requires
            old(self).wf(),
            host.wf(),
        ensures
            final(self).wf(),
            final(self).env_vars@ == base_vars(
                clean_vars(old(self).env_vars@, host@),
                old(self).staging_dir@,
                "/"@ + old(self).name@ + "-"@ + old(self).version@,
                jobs,
                make_jobs,
                is_macos,
            ),
            final(self).name == old(self).name,
            final(self).version == old(self).version,
            final(self).staging_dir == old(self).staging_dir,
            final(self).build_metadata == old(self).build_metadata,
    {
        self.setup_clean_environment(host);
        let staging = self.staging_dir.clone();
        self.env_vars.insert(owned("DESTDIR"), staging);
        self.env_vars.insert(owned("PREFIX"), owned("/opt/pm/live"));
        let bp = self.get_build_prefix();
        self.env_vars.insert(owned("BUILD_PREFIX"), bp);
        self.env_vars.insert(owned("JOBS"), usize_to_string(jobs));
        let mj = usize_to_string(make_jobs);
        self.env_vars.insert(owned("MAKEFLAGS"), concat("-j", mj.as_str()));
        self.env_vars.insert(owned("CFLAGS"), owned("-I/opt/pm/live/include"));
        self.env_vars.insert(owned("CPPFLAGS"), owned("-I/opt/pm/live/include"));
        let ldflags = if is_macos {
            owned("-L/opt/pm/live/lib -headerpad_max_install_names")
        } else {
            owned("-L/opt/pm/live/lib")
        };
        self.env_vars.insert(owned("LDFLAGS"), ldflags);
        self.env_vars.insert(owned("LIBRARY_PATH"), owned("/opt/pm/live/lib"));
        self.env_vars.insert(owned("MACOSX_DEPLOYMENT_TARGET"), owned("12.0"));
    }

    /// Sets up the variables of an isolated build, with this machine's job count.
    pub fn setup_environment(&mut self, host: &StringMap, is_macos: bool)
        requires
            old(self).wf(),
            host.wf(),
        ensures
            final(self).wf(),
            exists|jobs: usize, make_jobs: usize| jobs >= 1 && make_jobs >= 1
                && final(self).env_vars@ == base_vars(
                    clean_vars(old(self).env_vars@, host@),
                    old(self).staging_dir@,
                    "/"@ + old(self).name@ + "-"@ + old(self).version@,
                    jobs,
                    make_jobs,
                    is_macos,
                ),
            final(self).name == old(self).name,
            final(self).version == old(self).version,
            final(self).staging_dir == old(self).staging_dir,
            final(self).build_metadata == old(self).build_metadata,
    {
        let jobs = Self::cpu_count();
        let make_jobs = Self::cpu_count();
        self.setup_environment_with(host, jobs, make_jobs, is_macos);
    }

    /// Points the search paths of pkg-config, CMake and aclocal at the live prefix.
    pub fn setup_build_deps_environment(&mut self)
        requires
            old(self).wf(),
        ensures
            final(self).wf(),
            final(self).env_vars@ == old(self).env_vars@
                .insert("PKG_CONFIG_PATH"@, "/opt/pm/live/lib/pkgconfig"@)
                .insert("CMAKE_PREFIX_PATH"@, "/opt/pm/live"@)
                .insert("ACLOCAL_PATH"@, "/opt/pm/live/share/aclocal"@),
            final(self).name == old(self).name,
            final(self).version == old(self).version,
            final(self).staging_dir == old(self).staging_dir,
            final(self).build_metadata == old(self).build_metadata,
    {
        self.env_vars.insert(owned("PKG_CONFIG_PATH"), owned("/opt/pm/live/lib/pkgconfig"));
        self.env_vars.insert(owned("CMAKE_PREFIX_PATH"), owned("/opt/pm/live"));
        self.env_vars.insert(owned("ACLOCAL_PATH"), owned("/opt/pm/live/share/aclocal"));
    }

    /// Applies the default optimization and hardening flags, before the
    /// flags already set, and marks that it did.
    pub fn apply_default_compiler_flags(&mut self, is_arm64: bool, is_macos: bool)
        requires
            old(self).wf(),
        ensures
            final(self).wf(),
            final(self).with_defaults_called,
            final(self).env_vars@ == default_flag_vars(old(self).env_vars@, is_arm64, is_macos),
            final(self).name == old(self).name,
            final(self).version == old(self).version,
            final(self).staging_dir == old(self).staging_dir,
            final(self).build_metadata == old(self).build_metadata,
    {
        self.with_defaults_called = true;
        let apple = is_arm64 && is_macos;
        let cflags = if apple {
            "-O2 -pipe -fstack-protector-strong -mcpu=apple-m1 -mtune=native"
        } else {
            "-O2 -pipe -fstack-protector-strong"
        };
        merge_flags_exec(&mut self.env_vars, "CFLAGS", cflags);
        merge_flags_exec(&mut self.env_vars, "CXXFLAGS", cflags);
        if is_macos {
            merge_flags_exec(&mut self.env_vars, "LDFLAGS", "-Wl,-dead_strip -headerpad_max_install_names");
        }
        if apple {
            merge_flags_exec(&mut self.env_vars, "RUSTFLAGS", "-C target-cpu=apple-m1 -C opt-level=2");
            self.env_vars.insert(owned("GOFLAGS"), owned("-buildmode=pie"));
            self.env_vars.insert(owned("ARCHFLAGS"), owned("-arch arm64"));
            self.env_vars.insert(owned("CMAKE_OSX_ARCHITECTURES"), owned("arm64"));
        }
    }

    /// A summary for diagnostics: the prefixes, the package, and the search
    /// and flag variables that are set.
    pub fn environment_summary(&self) -> (r: StringMap)
        requires
            self.wf(),
        ensures
            r.wf(),
            r@ == copy_present(
                Map::<Seq<char>, Seq<char>>::empty()
                    .insert("build_prefix"@, self.build_prefix@)
                    .insert("staging_dir"@, self.staging_dir@)
                    .insert("package_name"@, self.name@)
                    .insert("package_version"@, self.version@),
                self.env_vars@,
                summary_keys(),
            ),
    {
        let mut summary = StringMap::new();
        summary.insert(owned("build_prefix"), self.build_prefix.clone());
        summary.insert(owned("staging_dir"), self.staging_dir.clone());
        summary.insert(owned("package_name"), self.name.clone());
        summary.insert(owned("package_version"), self.version.clone());
        let keys: Vec<&str> = vec!["PATH", "PKG_CONFIG_PATH", "CMAKE_PREFIX_PATH", "CFLAGS", "LDFLAGS"];
        assert(name_views(keys@) =~= summary_keys());
        copy_present_exec(&mut summary, &self.env_vars, &keys);
        summary
    }
}

} // verus!
