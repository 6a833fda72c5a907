//! GNU autotools build system.
use crate::build_systems::common::{owned, BuildSystemConfig};
use crate::build_systems::context::{any_arg_starts_with, any_starts_with, BuildSystemContext, CompilerCacheType};
use crate::paths::{join, path_join};
use crate::string_map::StringMap;
use crate::text::{
    concat, contains, contains_str, decimal, find_exec, first_occ, from_chars, join_strings, join_with,
    skip_chars, string_views, take_chars, to_chars, usize_to_string,
};
use vstd::prelude::*;

verus! {

/// Autotools build system
pub struct AutotoolsBuildSystem {
    config: BuildSystemConfig,
}

/// The `LDFLAGS` of a configure run: the build's flags, with the run-time
/// search path of the live prefix added on macOS where it is missing.
pub open spec fn configure_ldflags(vars: Map<Seq<char>, Seq<char>>, is_macos: bool) -> Seq<char> {
    let ld = if vars.contains_key("LDFLAGS"@) { vars["LDFLAGS"@] } else { Seq::<char>::empty() };
    let rpath = "-Wl,-rpath,/opt/pm/live/lib"@;
    if is_macos && !contains(ld, rpath) {
        if ld.len() > 0 { ld + " "@ + rpath } else { rpath }
    } else {
        ld
    }
}

/// The arguments of a configure run.
pub open spec fn configure_args_of(
    vars: Map<Seq<char>, Seq<char>>,
    user: Seq<Seq<char>>,
    is_macos: bool,
) -> Seq<Seq<char>> {
    let a0 = if any_starts_with(user, "--prefix="@) {
        Seq::<Seq<char>>::empty()
    } else {
        seq!["--prefix="@ + "/opt/pm/live"@]
    };
    let a1 = a0 + user;
    let a2 = if vars.contains_key("CFLAGS"@) { a1.push("CFLAGS="@ + vars["CFLAGS"@]) } else { a1 };
    let a3 = if vars.contains_key("CXXFLAGS"@) { a2.push("CXXFLAGS="@ + vars["CXXFLAGS"@]) } else { a2 };
    let ld = configure_ldflags(vars, is_macos);
    if ld.len() > 0 { a3.push("LDFLAGS="@ + ld) } else { a3 }
}

/// An argument as the shell line writes it: a `NAME=value` whose value has a
/// space gets the value in double quotes.
pub open spec fn shell_arg(a: Seq<char>) -> Seq<char> {
    if contains(a, "="@) && contains(a, " "@) {
        let i = first_occ(a, "="@);
        a.take(i) + "=\""@ + a.skip(i + 1) + "\""@
    } else {
        a
    }
}

/// The shell line that runs configure with its arguments.
pub open spec fn configure_line_of(path: Seq<char>, args: Seq<Seq<char>>) -> Seq<char> {
    join_with((seq![path] + args).map_values(|a: Seq<char>| shell_arg(a)), " "@)
}

/// The variables an autotools build adds.
pub open spec fn autotools_env_of(ctx: BuildSystemContext) -> Map<Seq<char>, Seq<char>> {
    let m = Map::<Seq<char>, Seq<char>>::empty().insert("PREFIX"@, ctx.prefix@).insert("DESTDIR"@, ctx.env.staging_dir@);
    match ctx.cache_config {
        Some(c) => if c.use_compiler_cache {
            match c.compiler_cache_type {
                CompilerCacheType::CCache => m.insert("CC"@, "ccache gcc"@).insert("CXX"@, "ccache g++"@),
                CompilerCacheType::SCCache => m.insert("RUSTC_WRAPPER"@, "sccache"@),
                CompilerCacheType::DistCC => m,
            }
        } else {
            m
        },
        None => m,
    }
}

/// The arguments of `make`: the job count where there is more than one job,
/// then the user's arguments.
pub open spec fn make_args_of(jobs: usize, user: Seq<Seq<char>>) -> Seq<Seq<char>> {
    if jobs > 1 {
        seq!["-j"@ + decimal(jobs as nat)] + user
    } else {
        user
    }
}

fn shell_arg_exec(a: &String) -> (r: String)
    ensures
        r@ == shell_arg(a@),
{
    let v = to_chars(a.as_str());
    if contains_str(v.as_slice(), "=") && contains_str(v.as_slice(), " ") {
        let eq = to_chars("=");
        match find_exec(v.as_slice(), eq.as_slice()) {
            Some(i) => {
                proof {
                    reveal_strlit("=");
                    assert(eq@.len() == 1);
                    crate::text::lemma_first_occ_in_bounds(v@, eq@);
                    assert(i + 1 <= v@.len());
                }
                let name = take_chars(v.as_slice(), i);
                let n = v.len();
                assert(i + 1 <= n);
                let value = skip_chars(v.as_slice(), i + 1);
                let n = from_chars(name.as_slice());
                let a1 = concat(n.as_str(), "=\"");
                let a2 = concat(a1.as_str(), from_chars(value.as_slice()).as_str());
                concat(a2.as_str(), "\"")
            },
            None => a.clone(),
        }
    } else {
        a.clone()
    }
}

impl AutotoolsBuildSystem {
    /// Create a new Autotools build system instance
    pub fn new() -> (s: Self)
        ensures
            s.configuration().supports_out_of_source,
            s.configuration().supports_parallel_builds,
            s.configuration().supports_incremental_builds,
            s.configuration().default_configure_args@.len() == 0,
            s.configuration().default_build_args@.len() == 0,
            s.configuration().env_prefix is None,
            string_views(s.configuration().watch_patterns@) == seq![
                "configure"@,
                "configure.ac"@,
                "configure.in"@,
                "Makefile.am"@,
                "Makefile.in"@,
            ],
    {
        let mut watch = Vec::new();
        watch.push(owned("configure"));
        watch.push(owned("configure.ac"));
        watch.push(owned("configure.in"));
        watch.push(owned("Makefile.am"));
        watch.push(owned("Makefile.in"));
        let s = AutotoolsBuildSystem {
            config: BuildSystemConfig {
                supports_out_of_source: true,
                supports_parallel_builds: true,
                supports_incremental_builds: true,
                default_configure_args: Vec::new(),
                default_build_args: Vec::new(),
                env_prefix: None,
                watch_patterns: watch,
            },
        };
        assert(string_views(s.config.watch_patterns@) =~= seq![
            "configure"@,
            "configure.ac"@,
            "configure.in"@,
            "Makefile.am"@,
            "Makefile.in"@,
        ]);
        s
    }

    /// The configuration this instance was made with.
    pub closed spec fn configuration(&self) -> BuildSystemConfig {
        self.config
    }

    /// The arguments of the configure run: the live prefix unless the user
    /// sets one, the user's arguments, and the build's C, C++ and linker flags.
    pub fn get_configure_args(ctx: &BuildSystemContext, user_args: &[String], is_macos: bool) -> (r: Vec<String>)
        requires
            ctx.wf(),
        ensures
            string_views(r@) == configure_args_of(
                ctx.env.env_vars@.union_prefer_right(ctx.extra_env@),
                string_views(user_args@),
                is_macos,
            ),
    {
        let ghost user = string_views(user_args@);
        let mut args: Vec<String> = Vec::new();
        if !any_arg_starts_with(user_args, "--prefix=") {
            let live = ctx.env.get_live_prefix();
            args.push(concat("--prefix=", live));
        }
        let ghost a0 = string_views(args@);
        for i in 0..user_args.len()
            invariant
                string_views(args@) == a0 + user.take(i as int),
                user == string_views(user_args@),
        {
            let ghost prev = args@;
            args.push(user_args[i].clone());
            assert(string_views(args@) =~= string_views(prev).push(user_args@[i as int]@));
            assert(user.take(i + 1) =~= user.take(i as int).push(user_args@[i as int]@));
        }
        assert(user.take(user.len() as int) =~= user);
        let ghost vm = ctx.env.env_vars@.union_prefer_right(ctx.extra_env@);
        let ghost g1 = (if any_starts_with(user, "--prefix="@) {
            Seq::<Seq<char>>::empty()
        } else {
            seq!["--prefix="@ + "/opt/pm/live"@]
        }) + user;
        assert(string_views(args@) =~= g1);
        let vars = ctx.get_all_env_vars();
        match vars.get("CFLAGS") {
            Some(c) => {
                args.push(concat("CFLAGS=", c.as_str()));
            },
            None => {},
        }
        let ghost g2 = if vm.contains_key("CFLAGS"@) { g1.push("CFLAGS="@ + vm["CFLAGS"@]) } else { g1 };
        assert(string_views(args@) =~= g2);
        match vars.get("CXXFLAGS") {
            Some(c) => {
                args.push(concat("CXXFLAGS=", c.as_str()));
            },
            None => {},
        }
        let ghost g3 = if vm.contains_key("CXXFLAGS"@) { g2.push("CXXFLAGS="@ + vm["CXXFLAGS"@]) } else { g2 };
        assert(string_views(args@) =~= g3);
        let mut ld: Vec<char> = match vars.get("LDFLAGS") {
            Some(l) => to_chars(l.as_str()),
            None => Vec::new(),
        };
        if is_macos {
            let rpath = to_chars("-Wl,-rpath,/opt/pm/live/lib");
            if !crate::text::contains_exec(ld.as_slice(), rpath.as_slice()) {
                if ld.len() > 0 {
                    ld.push(' ');
                    proof {
                        reveal_strlit(" ");
                    }
                }
                crate::text::push_all(&mut ld, rpath.as_slice());
            }
        }
        assert(ld@ == configure_ldflags(vm, is_macos));
        if ld.len() > 0 {
            let l = from_chars(ld.as_slice());
            args.push(concat("LDFLAGS=", l.as_str()));
        }
        assert(string_views(args@) =~= configure_args_of(vm, user, is_macos));
        args
    }

    /// The path of the configure script: `./configure` in an in-tree build,
    /// else the one in the source directory.
    pub fn configure_path(ctx: &BuildSystemContext) -> (r: String)
        ensures
            r@ == (if ctx.source_dir@ == ctx.build_dir@ { "./configure"@ } else { path_join(ctx.source_dir@, "configure"@) }),
    {
        let s = to_chars(ctx.source_dir.as_str());
        let b = to_chars(ctx.build_dir.as_str());
        if crate::text::chars_eq(s.as_slice(), b.as_slice()) {
            owned("./configure")
        } else {
            join(ctx.source_dir.as_str(), "configure")
        }
    }

    /// The shell line that runs configure: the path and the arguments, each
    /// `NAME=value with spaces` quoted, separated by spaces.
    pub fn configure_command(configure_path: &str, args: &[String]) -> (r: String)
        ensures
            r@ == configure_line_of(configure_path@, string_views(args@)),
    {
        let ghost all = seq![configure_path@] + string_views(args@);
        let mut parts: Vec<String> = Vec::new();
        parts.push(shell_arg_exec(&owned(configure_path)));
        for i in 0..args.len()
            invariant
                all == seq![configure_path@] + string_views(args@),
                string_views(parts@) == all.take(i + 1).map_values(|a: Seq<char>| shell_arg(a)),
        {
            let ghost prev = parts@;
            parts.push(shell_arg_exec(&args[i]));
            assert(string_views(parts@) =~= string_views(prev).push(shell_arg(args@[i as int]@)));
            assert(all.take(i + 2).map_values(|a: Seq<char>| shell_arg(a)) =~= all.take(i + 1).map_values(
                |a: Seq<char>| shell_arg(a),
            ).push(shell_arg(args@[i as int]@)));
        }
        assert(all.take(args@.len() + 1 as int) =~= all);
        join_strings(&parts, " ")
    }

    /// The arguments of `make`.
    pub fn make_args(ctx: &BuildSystemContext, args: &[String]) -> (r: Vec<String>)
        ensures
            string_views(r@) == make_args_of(ctx.jobs, string_views(args@)),
    {
        let mut r: Vec<String> = Vec::new();
        if ctx.jobs > 1 {
            let j = usize_to_string(ctx.jobs);
            r.push(concat("-j", j.as_str()));
        }
        let ghost head = string_views(r@);
        for i in 0..args.len()
            invariant
                string_views(r@) == head + string_views(args@).take(i as int),
        {
            let ghost prev = r@;
            r.push(args[i].clone());
            assert(string_views(r@) =~= string_views(prev).push(args@[i as int]@));
            assert(string_views(args@).take(i + 1) =~= string_views(args@).take(i as int).push(args@[i as int]@));
        }
        assert(string_views(args@).take(args@.len() as int) =~= string_views(args@));
        assert(string_views(r@) =~= make_args_of(ctx.jobs, string_views(args@)));
        r
    }

    /// The arguments of `make install` into the staging directory.
    pub fn install_args(ctx: &BuildSystemContext) -> (r: Vec<String>)
        ensures
            string_views(r@) == seq!["install"@, "DESTDIR="@ + ctx.env.staging_dir@],
    {
        let mut r: Vec<String> = Vec::new();
        r.push(owned("install"));
        r.push(concat("DESTDIR=", ctx.env.staging_dir.as_str()));
        assert(string_views(r@) =~= seq!["install"@, "DESTDIR="@ + ctx.env.staging_dir@]);
        r
    }

    /// The variables an autotools build adds: the prefix, the staging
    /// directory, and the compilers or wrapper of a configured cache.
    pub fn get_env_vars(&self, ctx: &BuildSystemContext) -> (r: StringMap)
        ensures
            r.wf(),
            r@ == autotools_env_of(*ctx),
    {
        let mut vars = StringMap::new();
        vars.insert(owned("PREFIX"), ctx.prefix.clone());
        vars.insert(owned("DESTDIR"), ctx.env.staging_dir.clone());
        match &ctx.cache_config {
            Some(c) => if c.use_compiler_cache {
                match c.compiler_cache_type {
                    CompilerCacheType::CCache => {
                        vars.insert(owned("CC"), owned("ccache gcc"));
                        vars.insert(owned("CXX"), owned("ccache g++"));
                    },
                    CompilerCacheType::SCCache => {
                        vars.insert(owned("RUSTC_WRAPPER"), owned("sccache"));
                    },
                    CompilerCacheType::DistCC => {},
                }
            },
            None => {},
        }
        vars
    }

    /// The build system's name.
    pub fn name(&self) -> (r: &'static str)
        ensures
            r@ == "autotools"@,
    {
        "autotools"
    }

    /// Autotools supports both, but builds in the source tree by tradition.
    pub fn prefers_out_of_source_build(&self) -> (r: bool)
        ensures
            !r,
    {
        false
    }
}

/// Whether `autoreconf` must run, from what the source directory holds: a
/// missing `configure` always needs it; where `configure.ac` exists and both
/// modification times are known, it runs when `configure.ac` is newer;
/// otherwise it runs where `configure.ac` or `configure.in` exists.
pub fn needs_autoreconf(
    configure_exists: bool,
    configure_ac_exists: bool,
    configure_in_exists: bool,
    configure_mtime: Option<u128>,
    configure_ac_mtime: Option<u128>,
) -> (r: bool)
    ensures
        r == if !configure_exists {
            true
        } else if configure_ac_exists && configure_mtime is Some && configure_ac_mtime is Some {
            configure_ac_mtime->0 > configure_mtime->0
        } else {
            configure_ac_exists || configure_in_exists
        },
{
    if !configure_exists {
        return true;
    }
    if configure_ac_exists {
        match (configure_mtime, configure_ac_mtime) {
            (Some(c), Some(a)) => {
                return a > c;
            },
            _ => {},
        }
    }
    configure_ac_exists || configure_in_exists
}

} // verus!
