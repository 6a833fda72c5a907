//! CMake build system.
use crate::build_systems::common::{failure_views, owned, plain_failure, BuildSystemConfig, TestFailure, TestFailureView};
use crate::build_systems::context::{any_arg_starts_with, any_starts_with, BuildSystemContext, CompilerCacheType};
use crate::cross::CrossCompilationContext;
use crate::paths::parent_of;
use crate::string_map::StringMap;
use crate::text::{concat, join_strings, join_with, split_char, split_on, string_views};
use crate::text::{
    parse_usize, parse_usize_spec, position, position_of, split_words, to_chars, views, words,
    eq_str,
};
use vstd::prelude::*;

verus! {

/// CMake build system
pub struct CMakeBuildSystem {
    config: BuildSystemConfig,
}

/// The word that holds the failed count: the one before `tests failed`, or
/// the one just before `failed`.
pub open spec fn ctest_failed_word(ws: Seq<Seq<char>>, fp: int) -> Seq<char> {
    if fp >= 2 && ws[fp - 1] == "tests"@ {
        ws[fp - 2]
    } else {
        ws[fp - 1]
    }
}

/// The failed and total counts that a CTest summary line spells, when it spells both.
pub open spec fn ctest_counts(line: Seq<char>) -> Option<(usize, usize)> {
    let ws = words(line);
    let fp = position(ws, "failed"@);
    let op = position(ws, "of"@);
    if fp < 0 || op < 0 {
        None
    } else {
        match parse_usize_spec(ctest_failed_word(ws, fp)) {
            None => None,
            Some(f) => if op + 1 >= ws.len() {
                None
            } else {
                match parse_usize_spec(ws[op + 1]) {
                    None => None,
                    Some(t) => Some((f, t)),
                }
            },
        }
    }
}

/// A CTest summary `<q>% tests passed, <f> tests failed out of <t>` reports
/// `t` tests, of which `f` failed and the rest passed.
pub proof fn lemma_ctest_summary_line(line: Seq<char>, q: usize, f: usize, t: usize)
    requires
        f <= t,
        words(line) == seq![
            crate::build_systems::common::count_word(q) + "%"@,
            "tests"@,
            "passed,"@,
            crate::build_systems::common::count_word(f),
            "tests"@,
            "failed"@,
            "out"@,
            "of"@,
            crate::build_systems::common::count_word(t),
        ],
    ensures
        ctest_summary(line) == Some((t, (t - f) as usize, f)),
{
    reveal_strlit("%");
    reveal_strlit("tests");
    reveal_strlit("passed,");
    reveal_strlit("failed");
    reveal_strlit("out");
    reveal_strlit("of");
    let ws = words(line);
    crate::text::lemma_decimal_spells(q as nat);
    crate::text::lemma_decimal_spells(f as nat);
    crate::text::lemma_parse_decimal(f);
    crate::text::lemma_parse_decimal(t);
    assert(ws[0][0] == crate::build_systems::common::count_word(q)[0]);
    assert('0' <= ws[0][0] && ws[0][0] <= '9');
    assert(ws[3][0] == crate::text::decimal(f as nat)[0]);
    assert forall|k: int| 0 <= k < 5 implies ws[k] != "failed"@ by {
        assert("failed"@[0] == 'f');
    }
    assert forall|k: int| 0 <= k < 7 implies ws[k] != "of"@ by {
        assert("of"@[0] == 'o');
        assert("out"@[1] == 'u');
        assert("of"@[1] == 'f');
    }
    crate::text::lemma_first_pos_unique(ws, "failed"@, 5);
    crate::text::lemma_first_pos_unique(ws, "of"@, 7);
}

/// The summary line can be read without an arithmetic fault: `failed` is not
/// the first word, and the failed count is at most the total.
pub open spec fn ctest_summary_readable(line: Seq<char>) -> bool {
    let ws = words(line);
    let fp = position(ws, "failed"@);
    let op = position(ws, "of"@);
    &&& (fp >= 0 && op >= 0 ==> fp >= 1)
    &&& (ctest_counts(line) matches Some((f, t)) ==> f <= t)
}

/// `(total, passed, failed)` of a line `X% tests passed, Y tests failed out of Z`.
pub open spec fn ctest_summary(line: Seq<char>) -> Option<(usize, usize, usize)> {
    match ctest_counts(line) {
        Some((f, t)) => Some((t, (t - f) as usize, f)),
        None => None,
    }
}

/// Parse CTest summary line
pub fn parse_ctest_summary(line: &str) -> (r: Option<(usize, usize, usize)>)
    requires
        ctest_summary_readable(line@),
    ensures
        r == ctest_summary(line@),
{
    let text = to_chars(line);
    let parts = split_words(text.as_slice());
    let failed_pos = match position_of(&parts, "failed") {
        Some(p) => p,
        None => return None,
    };
    let out_of_pos = match position_of(&parts, "of") {
        Some(p) => p,
        None => return None,
    };
    let failed_word = if failed_pos >= 2 && eq_str(parts[failed_pos - 1].as_slice(), "tests") {
        failed_pos - 2
    } else {
        failed_pos - 1
    };
    let failed = match parse_usize(parts[failed_word].as_slice()) {
        Some(f) => f,
        None => return None,
    };
    if out_of_pos >= parts.len() - 1 {
        return None;
    }
    let total = match parse_usize(parts[out_of_pos + 1].as_slice()) {
        Some(t) => t,
        None => return None,
    };
    Some((total, total - failed, failed))
}

impl CMakeBuildSystem {
    /// Create a new CMake build system instance
    pub fn new() -> (s: Self)
        ensures
            s.configuration().supports_out_of_source,
            s.configuration().supports_parallel_builds,
            s.configuration().supports_incremental_builds,
            s.configuration().default_configure_args@.len() == 2,
            s.configuration().default_configure_args@[0]@ == "-DCMAKE_BUILD_TYPE=Release"@,
            s.configuration().default_configure_args@[1]@ == "-DCMAKE_COLOR_MAKEFILE=ON"@,
            s.configuration().default_build_args@.len() == 0,
            s.configuration().env_prefix matches Some(p) && p@ == "CMAKE_"@,
            s.configuration().watch_patterns@.len() == 3,
            s.configuration().watch_patterns@[0]@ == "CMakeLists.txt"@,
            s.configuration().watch_patterns@[1]@ == "*.cmake"@,
            s.configuration().watch_patterns@[2]@ == "cmake/*.cmake"@,
    {
        let mut defaults = Vec::new();
        defaults.push(owned("-DCMAKE_BUILD_TYPE=Release"));
        defaults.push(owned("-DCMAKE_COLOR_MAKEFILE=ON"));
        let mut watch = Vec::new();
        watch.push(owned("CMakeLists.txt"));
        watch.push(owned("*.cmake"));
        watch.push(owned("cmake/*.cmake"));
        CMakeBuildSystem {
            config: BuildSystemConfig {
                supports_out_of_source: true,
                supports_parallel_builds: true,
                supports_incremental_builds: true,
                default_configure_args: defaults,
                default_build_args: Vec::new(),
                env_prefix: Some(owned("CMAKE_")),
                watch_patterns: watch,
            },
        }
    }

    /// The configuration this instance was made with.
    pub closed spec fn configuration(&self) -> BuildSystemConfig {
        self.config
    }
}

/// The default arguments that the user's arguments do not already set: a
/// default is dropped where a user argument begins with its name (the part
/// before `=`).
pub open spec fn kept_defaults(ds: Seq<Seq<char>>, user: Seq<Seq<char>>) -> Seq<Seq<char>>
    decreases ds.len(),
{
    if ds.len() == 0 {
        Seq::empty()
    } else {
        let rest = kept_defaults(ds.drop_last(), user);
        if any_starts_with(user, split_char(ds.last(), '=')[0]) {
            rest
        } else {
            rest.push(ds.last())
        }
    }
}

/// The CMake system name of an operating system.
pub open spec fn cmake_system_name(os: Seq<char>) -> Seq<char> {
    if os == "darwin"@ {
        "Darwin"@
    } else if os == "linux"@ {
        "Linux"@
    } else if os == "windows"@ {
        "Windows"@
    } else {
        "Generic"@
    }
}

/// The arguments that point CMake at a cross toolchain and sysroot.
pub open spec fn cross_cmake_args(c: CrossCompilationContext) -> Seq<Seq<char>> {
    seq![
        "-DCMAKE_TOOLCHAIN_FILE="@ + c.toolchain.cmake_toolchain_file@,
        "-DCMAKE_SYSTEM_NAME="@ + cmake_system_name(c.host_platform.os@),
        "-DCMAKE_SYSTEM_PROCESSOR="@ + c.host_platform.arch@,
        "-DCMAKE_SYSROOT="@ + c.sysroot@,
        "-DCMAKE_FIND_ROOT_PATH_MODE_PROGRAM=NEVER"@,
        "-DCMAKE_FIND_ROOT_PATH_MODE_LIBRARY=ONLY"@,
        "-DCMAKE_FIND_ROOT_PATH_MODE_INCLUDE=ONLY"@,
    ]
}

/// The grandparents of the paths that have one, in order: the prefixes
/// above `<prefix>/lib/pkgconfig` entries.
pub open spec fn grandparents(ps: Seq<Seq<char>>) -> Seq<Seq<char>>
    decreases ps.len(),
{
    if ps.len() == 0 {
        Seq::empty()
    } else {
        let rest = grandparents(ps.drop_last());
        match parent_of(ps.last()) {
            Some(a) => match parent_of(a) {
                Some(b) => rest.push(b),
                None => rest,
            },
            None => rest,
        }
    }
}

/// The arguments of a CMake configure run.
pub open spec fn cmake_args_of(
    source: Seq<char>,
    build_prefix: Seq<char>,
    defaults: Seq<Seq<char>>,
    cross: Option<CrossCompilationContext>,
    vars: Map<Seq<char>, Seq<char>>,
    user: Seq<Seq<char>>,
) -> Seq<Seq<char>> {
    let a0 = seq![source];
    let a1 = if any_starts_with(user, "-DCMAKE_INSTALL_PREFIX="@) {
        a0
    } else {
        a0.push("-DCMAKE_INSTALL_PREFIX="@ + build_prefix)
    };
    let a2 = a1 + kept_defaults(defaults, user);
    let a3 = match cross {
        Some(c) => a2 + cross_cmake_args(c),
        None => a2,
    };
    let a4 = if vars.contains_key("PKG_CONFIG_PATH"@) && grandparents(split_char(vars["PKG_CONFIG_PATH"@], ':')).len() > 0 {
        a3.push("-DCMAKE_PREFIX_PATH="@ + join_with(grandparents(split_char(vars["PKG_CONFIG_PATH"@], ':')), ";"@))
    } else {
        a3
    };
    let a5 = if any_starts_with(user, "-DCMAKE_FIND_PACKAGE_PREFER_CONFIG="@) {
        a4
    } else {
        a4.push("-DCMAKE_FIND_PACKAGE_PREFER_CONFIG=ON"@)
    };
    a5 + user
}

/// The variables a CMake build adds: where to stage the install, and the
/// compiler launcher of a configured ccache or sccache.
pub open spec fn cmake_env_of(ctx: BuildSystemContext) -> Map<Seq<char>, Seq<char>> {
    let m = Map::<Seq<char>, Seq<char>>::empty().insert("DESTDIR"@, ctx.env.staging_dir@);
    match ctx.cache_config {
        Some(c) => if c.use_compiler_cache {
            match c.compiler_cache_type {
                CompilerCacheType::CCache => m.insert("CMAKE_CXX_COMPILER_LAUNCHER"@, "ccache"@).insert(
                    "CMAKE_C_COMPILER_LAUNCHER"@,
                    "ccache"@,
                ),
                CompilerCacheType::SCCache => m.insert("CMAKE_CXX_COMPILER_LAUNCHER"@, "sccache"@).insert(
                    "CMAKE_C_COMPILER_LAUNCHER"@,
                    "sccache"@,
                ),
                CompilerCacheType::DistCC => m,
            }
        } else {
            m
        },
        None => m,
    }
}

fn push_views(v: &mut Vec<String>, w: Vec<String>)
    ensures
        string_views(final(v)@) == string_views(old(v)@) + string_views(w@),
{
    let ghost start = string_views(v@);
    let mut w = w;
    let ghost wv = string_views(w@);
    v.append(&mut w);
    assert(string_views(v@) =~= start + wv);
}

fn cross_cmake_args_exec(c: &CrossCompilationContext) -> (r: Vec<String>)
    ensures
        string_views(r@) == cross_cmake_args(*c),
{
    let mut r: Vec<String> = Vec::new();
    r.push(concat("-DCMAKE_TOOLCHAIN_FILE=", c.toolchain.cmake_toolchain_file.as_str()));
    let os = to_chars(c.host_platform.os.as_str());
    let name = if eq_str(os.as_slice(), "darwin") {
        "Darwin"
    } else if eq_str(os.as_slice(), "linux") {
        "Linux"
    } else if eq_str(os.as_slice(), "windows") {
        "Windows"
    } else {
        "Generic"
    };
    r.push(concat("-DCMAKE_SYSTEM_NAME=", name));
    r.push(concat("-DCMAKE_SYSTEM_PROCESSOR=", c.host_platform.arch.as_str()));
    r.push(concat("-DCMAKE_SYSROOT=", c.sysroot.as_str()));
    r.push(owned("-DCMAKE_FIND_ROOT_PATH_MODE_PROGRAM=NEVER"));
    r.push(owned("-DCMAKE_FIND_ROOT_PATH_MODE_LIBRARY=ONLY"));
    r.push(owned("-DCMAKE_FIND_ROOT_PATH_MODE_INCLUDE=ONLY"));
    assert(string_views(r@) =~= cross_cmake_args(*c));
    r
}

fn grandparents_exec(ps: &Vec<Vec<char>>) -> (r: Vec<String>)
    ensures
        string_views(r@) == grandparents(views(ps@)),
{
    let mut r: Vec<String> = Vec::new();
    for i in 0..ps.len()
        invariant
            string_views(r@) == grandparents(views(ps@).take(i as int)),
    {
        let ghost t = views(ps@).take(i + 1);
        assert(t.drop_last() =~= views(ps@).take(i as int));
        assert(t.last() == ps@[i as int]@);
        let p = crate::text::from_chars(ps[i].as_slice());
        match crate::paths::parent(p.as_str()) {
            Some(a) => match crate::paths::parent(a.as_str()) {
                Some(b) => {
                    let ghost prev = r@;
                    r.push(b);
                    assert(string_views(r@) =~= string_views(prev).push(b@));
                },
                None => {},
            },
            None => {},
        }
    }
    assert(views(ps@).take(ps@.len() as int) =~= views(ps@));
    r
}

impl CMakeBuildSystem {
    /// The default configure arguments that the user's arguments leave in place.
    fn kept_defaults_exec(&self, user_args: &[String]) -> (r: Vec<String>)
        ensures
            string_views(r@) == kept_defaults(string_views(self.config.default_configure_args@), string_views(user_args@)),
    {
        let ds = &self.config.default_configure_args;
        let mut r: Vec<String> = Vec::new();
        for i in 0..ds.len()
            invariant
                ds == &self.config.default_configure_args,
                string_views(r@) == kept_defaults(string_views(ds@).take(i as int), string_views(user_args@)),
        {
            let ghost t = string_views(ds@).take(i + 1);
            assert(t.drop_last() =~= string_views(ds@).take(i as int));
            assert(t.last() == ds@[i as int]@);
            let pieces = split_on(to_chars(ds[i].as_str()).as_slice(), '=');
            assert(views(pieces@).len() >= 1);
            assert(views(pieces@)[0] == pieces@[0]@);
            let key = crate::text::from_chars(pieces[0].as_slice());
            if !any_arg_starts_with(user_args, key.as_str()) {
                let ghost prev = r@;
                r.push(ds[i].clone());
                assert(string_views(r@) =~= string_views(prev).push(ds@[i as int]@));
            }
        }
        assert(string_views(ds@).take(ds@.len() as int) =~= string_views(ds@));
        r
    }

    /// The arguments of the configure run: the source directory, the install
    /// prefix and the defaults where the user sets neither, the cross
    /// toolchain, the prefixes above the pkg-config search path, a preference
    /// for package config files, and then the user's arguments.
    pub fn get_cmake_args(&self, ctx: &BuildSystemContext, user_args: &[String]) -> (r: Vec<String>)
        requires
            ctx.wf(),
        ensures
            string_views(r@) == cmake_args_of(
                ctx.source_dir@,
                "/"@ + ctx.env.name@ + "-"@ + ctx.env.version@,
                string_views(self.configuration().default_configure_args@),
                ctx.cross_compilation,
                ctx.env.env_vars@.union_prefer_right(ctx.extra_env@),
                string_views(user_args@),
            ),
    {
        let ghost user = string_views(user_args@);
        let ghost bpv = "/"@ + ctx.env.name@ + "-"@ + ctx.env.version@;
        let ghost vmap = ctx.env.env_vars@.union_prefer_right(ctx.extra_env@);
        let ghost a0 = seq![ctx.source_dir@];
        let ghost a1 = if any_starts_with(user, "-DCMAKE_INSTALL_PREFIX="@) {
            a0
        } else {
            a0.push("-DCMAKE_INSTALL_PREFIX="@ + bpv)
        };
        let ghost a2 = a1 + kept_defaults(string_views(self.config.default_configure_args@), user);
        let ghost a3 = match &ctx.cross_compilation {
            Some(c) => a2 + cross_cmake_args(*c),
            None => a2,
        };
        let ghost gps = if vmap.contains_key("PKG_CONFIG_PATH"@) {
            grandparents(split_char(vmap["PKG_CONFIG_PATH"@], ':'))
        } else {
            Seq::empty()
        };
        let ghost a4 = if vmap.contains_key("PKG_CONFIG_PATH"@) && gps.len() > 0 {
            a3.push("-DCMAKE_PREFIX_PATH="@ + join_with(gps, ";"@))
        } else {
            a3
        };
        let ghost a5 = if any_starts_with(user, "-DCMAKE_FIND_PACKAGE_PREFER_CONFIG="@) {
            a4
        } else {
            a4.push("-DCMAKE_FIND_PACKAGE_PREFER_CONFIG=ON"@)
        };
        let mut args: Vec<String> = Vec::new();
        args.push(ctx.source_dir.clone());
        assert(string_views(args@) =~= a0);
        if !any_arg_starts_with(user_args, "-DCMAKE_INSTALL_PREFIX=") {
            let bp = ctx.env.get_build_prefix();
            args.push(concat("-DCMAKE_INSTALL_PREFIX=", bp.as_str()));
        }
        assert(string_views(args@) =~= a1);
        let kept = self.kept_defaults_exec(user_args);
        push_views(&mut args, kept);
        assert(string_views(args@) =~= a2);
        match &ctx.cross_compilation {
            Some(c) => {
                let ca = cross_cmake_args_exec(c);
                push_views(&mut args, ca);
            },
            None => {},
        }
        assert(string_views(args@) =~= a3);
        let vars = ctx.get_all_env_vars();
        match vars.get("PKG_CONFIG_PATH") {
            Some(pkg) => {
                let pieces = split_on(to_chars(pkg.as_str()).as_slice(), ':');
                let gp = grandparents_exec(&pieces);
                assert(string_views(gp@) == gps);
                if gp.len() > 0 {
                    let joined = join_strings(&gp, ";");
                    let ghost prev = args@;
                    args.push(concat("-DCMAKE_PREFIX_PATH=", joined.as_str()));
                    assert(string_views(args@) =~= string_views(prev).push("-DCMAKE_PREFIX_PATH="@ + joined@));
                }
            },
            None => {},
        }
        assert(string_views(args@) =~= a4);
        if !any_arg_starts_with(user_args, "-DCMAKE_FIND_PACKAGE_PREFER_CONFIG=") {
            args.push(owned("-DCMAKE_FIND_PACKAGE_PREFER_CONFIG=ON"));
        }
        assert(string_views(args@) =~= a5);
        let mut user_copy: Vec<String> = Vec::new();
        for i in 0..user_args.len()
            invariant
                string_views(user_copy@) == string_views(user_args@).take(i as int),
        {
            let ghost prev = user_copy@;
            user_copy.push(user_args[i].clone());
            assert(string_views(user_copy@) =~= string_views(prev).push(user_args@[i as int]@));
            assert(string_views(user_args@).take(i + 1) =~= string_views(user_args@).take(i as int).push(user_args@[i as int]@));
        }
        assert(string_views(user_args@).take(user_args@.len() as int) =~= string_views(user_args@));
        push_views(&mut args, user_copy);
        args
    }

    /// The variables a CMake build adds.
    pub fn get_env_vars(&self, ctx: &BuildSystemContext) -> (r: StringMap)
        ensures
            r.wf(),
            r@ == cmake_env_of(*ctx),
    {
        let mut vars = StringMap::new();
        vars.insert(owned("DESTDIR"), ctx.env.staging_dir.clone());
        match &ctx.cache_config {
            Some(c) => if c.use_compiler_cache {
                match c.compiler_cache_type {
                    CompilerCacheType::CCache => {
                        vars.insert(owned("CMAKE_CXX_COMPILER_LAUNCHER"), owned("ccache"));
                        vars.insert(owned("CMAKE_C_COMPILER_LAUNCHER"), owned("ccache"));
                    },
                    CompilerCacheType::SCCache => {
                        vars.insert(owned("CMAKE_CXX_COMPILER_LAUNCHER"), owned("sccache"));
                        vars.insert(owned("CMAKE_C_COMPILER_LAUNCHER"), owned("sccache"));
                    },
                    CompilerCacheType::DistCC => {},
                }
            },
            None => {},
        }
        vars
    }

    /// The build system's name.
    pub fn name(&self) -> (r: &'static str)
        ensures
            r@ == "cmake"@,
    {
        "cmake"
    }

    /// CMake builds out of the source tree.
    pub fn prefers_out_of_source_build(&self) -> (r: bool)
        ensures
            r,
    {
        true
    }
}

/// The system name a toolchain file gives a host system.
pub open spec fn toolchain_system_name(os: Seq<char>) -> Seq<char> {
    if os == "darwin"@ {
        "Darwin"@
    } else if os == "linux"@ {
        "Linux"@
    } else {
        "Generic"@
    }
}

/// The text of a CMake toolchain file around its values.
pub open spec fn toolchain_file_pieces() -> Seq<Seq<char>> {
    seq![
        "# CMake toolchain file for cross-compilation\n                    set(CMAKE_SYSTEM_NAME "@,
        ")\n                    set(CMAKE_SYSTEM_PROCESSOR "@,
        ")\n\n                    # Toolchain\n                    set(CMAKE_C_COMPILER "@,
        ")\n                    set(CMAKE_CXX_COMPILER "@,
        ")\n                    set(CMAKE_AR "@,
        ")\n                    set(CMAKE_RANLIB "@,
        ")\n                    set(CMAKE_STRIP "@,
        ")\n\n                    # Sysroot\n                    set(CMAKE_SYSROOT "@,
        ")\n                    set(CMAKE_FIND_ROOT_PATH "@,
        ")\n\n                    # Search paths\n                    set(CMAKE_FIND_ROOT_PATH_MODE_PROGRAM NEVER)\n                    set(CMAKE_FIND_ROOT_PATH_MODE_LIBRARY ONLY)\n                    set(CMAKE_FIND_ROOT_PATH_MODE_INCLUDE ONLY)\n                    set(CMAKE_FIND_ROOT_PATH_MODE_PACKAGE ONLY)\n\n                    # pkg-config\n                    set(ENV{PKG_CONFIG_PATH} \""@,
        "/usr/lib/pkgconfig:"@,
        "/usr/share/pkgconfig\")\n                    set(ENV{PKG_CONFIG_SYSROOT_DIR} \""@,
        "\")\n                    "@,
    ]
}

/// The values of a CMake toolchain file: the system and processor, the
/// tools, and the sysroot wherever it is named.
pub open spec fn toolchain_file_values(cross: CrossCompilationContext) -> Seq<Seq<char>> {
    let sys = cross.sysroot@;
    seq![
        toolchain_system_name(cross.host_platform.os@),
        cross.host_platform.arch@,
        cross.toolchain.cc@,
        cross.toolchain.cxx@,
        cross.toolchain.ar@,
        cross.toolchain.ranlib@,
        cross.toolchain.strip@,
        sys,
        sys,
        sys,
        sys,
        sys,
    ]
}

impl CMakeBuildSystem {
    /// The text of the toolchain file of a cross build.
    pub fn toolchain_file_content(cross: &CrossCompilationContext) -> (r: String)
        ensures
            r@ == crate::text::fill(toolchain_file_pieces(), toolchain_file_values(*cross)),
    {
        let pieces: Vec<&str> = vec![
            "# CMake toolchain file for cross-compilation\n                    set(CMAKE_SYSTEM_NAME ",
            ")\n                    set(CMAKE_SYSTEM_PROCESSOR ",
            ")\n\n                    # Toolchain\n                    set(CMAKE_C_COMPILER ",
            ")\n                    set(CMAKE_CXX_COMPILER ",
            ")\n                    set(CMAKE_AR ",
            ")\n                    set(CMAKE_RANLIB ",
            ")\n                    set(CMAKE_STRIP ",
            ")\n\n                    # Sysroot\n                    set(CMAKE_SYSROOT ",
            ")\n                    set(CMAKE_FIND_ROOT_PATH ",
            ")\n\n                    # Search paths\n                    set(CMAKE_FIND_ROOT_PATH_MODE_PROGRAM NEVER)\n                    set(CMAKE_FIND_ROOT_PATH_MODE_LIBRARY ONLY)\n                    set(CMAKE_FIND_ROOT_PATH_MODE_INCLUDE ONLY)\n                    set(CMAKE_FIND_ROOT_PATH_MODE_PACKAGE ONLY)\n\n                    # pkg-config\n                    set(ENV{PKG_CONFIG_PATH} \"",
            "/usr/lib/pkgconfig:",
            "/usr/share/pkgconfig\")\n                    set(ENV{PKG_CONFIG_SYSROOT_DIR} \"",
            "\")\n                    ",
        ];
        assert(pieces@.map_values(|p: &str| p@) =~= toolchain_file_pieces());
        let os = crate::text::to_chars(cross.host_platform.os.as_str());
        let name = if crate::text::eq_str(os.as_slice(), "darwin") {
            owned("Darwin")
        } else if crate::text::eq_str(os.as_slice(), "linux") {
            owned("Linux")
        } else {
            owned("Generic")
        };
        let mut v: Vec<String> = Vec::new();
        v.push(name);
        v.push(cross.host_platform.arch.clone());
        v.push(cross.toolchain.cc.clone());
        v.push(cross.toolchain.cxx.clone());
        v.push(cross.toolchain.ar.clone());
        v.push(cross.toolchain.ranlib.clone());
        v.push(cross.toolchain.strip.clone());
        v.push(cross.sysroot.clone());
        v.push(cross.sysroot.clone());
        v.push(cross.sysroot.clone());
        v.push(cross.sysroot.clone());
        v.push(cross.sysroot.clone());
        assert(string_views(v@) =~= toolchain_file_values(*cross));
        crate::text::fill_template(&pieces, &v)
    }
}

/// What the CTest output parser has gathered after some lines: the total,
/// passed and failed counts of the last readable summary line, and the
/// failed or timed-out tests named so far.
pub open spec fn ctest_scan(ls: Seq<Seq<char>>) -> (usize, usize, usize, Seq<TestFailureView>)
    decreases ls.len(),
{
    if ls.len() == 0 {
        (0, 0, 0, seq![])
    } else {
        let prev = ctest_scan(ls.drop_last());
        let l = ls.last();
        if crate::text::contains(l, "% tests passed"@) {
            match ctest_summary(l) {
                Some((t, p, f)) => (t, p, f, prev.3),
                None => prev,
            }
        } else if crate::text::contains(l, "***Failed"@) || crate::text::contains(l, "***Timeout"@) {
            if words(l).len() > 1 {
                (prev.0, prev.1, prev.2, prev.3.push(plain_failure(words(l)[1], l)))
            } else {
                prev
            }
        } else {
            prev
        }
    }
}

/// The results of a CTest run from its output and whether it succeeded:
/// where no summary gave a total and the run failed, one failed test.
pub open spec fn ctest_results(output: Seq<char>, succeeded: bool) -> (usize, usize, usize, Seq<TestFailureView>) {
    let s = ctest_scan(crate::text::lines(output));
    if s.0 == 0 && !succeeded {
        (1, s.1, 1, s.3)
    } else {
        s
    }
}

/// Every summary line of the output can be read without an arithmetic fault.
pub open spec fn ctest_output_readable(output: Seq<char>) -> bool {
    forall|i: int|
        0 <= i < crate::text::lines(output).len() && crate::text::contains(#[trigger] crate::text::lines(output)[i], "% tests passed"@)
            ==> ctest_summary_readable(crate::text::lines(output)[i])
}

/// The arguments of `ctest`: failures shown, tests run in parallel.
pub fn ctest_args(ctx: &BuildSystemContext) -> (r: Vec<String>)
    ensures
        string_views(r@) == seq!["--output-on-failure"@, "--parallel"@, crate::text::decimal(ctx.jobs as nat)],
{
    let mut r: Vec<String> = Vec::new();
    r.push(owned("--output-on-failure"));
    r.push(owned("--parallel"));
    r.push(crate::text::usize_to_string(ctx.jobs));
    assert(string_views(r@) =~= seq!["--output-on-failure"@, "--parallel"@, crate::text::decimal(ctx.jobs as nat)]);
    r
}

/// The total, passed and failed counts and the failures of a CTest run.
pub fn parse_ctest_output(output: &str, succeeded: bool) -> (r: (usize, usize, usize, Vec<TestFailure>))
    requires
        ctest_output_readable(output@),
    ensures
        ({
            let spec = ctest_results(output@, succeeded);
            &&& r.0 == spec.0
            &&& r.1 == spec.1
            &&& r.2 == spec.2
            &&& failure_views(r.3@) == spec.3
        }),
{
    let text = to_chars(output);
    let ls = crate::text::split_lines(text.as_slice());
    let mut total: usize = 0;
    let mut passed: usize = 0;
    let mut failed: usize = 0;
    let mut failures: Vec<TestFailure> = Vec::new();
    for i in 0..ls.len()
        invariant
            views(ls@) == crate::text::lines(output@),
            ctest_output_readable(output@),
            ({
                let st = ctest_scan(views(ls@).take(i as int));
                &&& total == st.0
                &&& passed == st.1
                &&& failed == st.2
                &&& failure_views(failures@) == st.3
            }),
    {
        let line = &ls[i];
        proof {
            assert(views(ls@).take(i + 1).drop_last() == views(ls@).take(i as int));
            assert(views(ls@).take(i + 1).last() == line@);
        }
        if crate::text::contains_str(line.as_slice(), "% tests passed") {
            proof {
                assert(crate::text::lines(output@)[i as int] == line@);
            }
            let l = crate::text::from_chars(line.as_slice());
            match parse_ctest_summary(l.as_str()) {
                Some((t, p, f)) => {
                    total = t;
                    passed = p;
                    failed = f;
                },
                None => {},
            }
        } else if crate::text::contains_str(line.as_slice(), "***Failed") || crate::text::contains_str(
            line.as_slice(),
            "***Timeout",
        ) {
            let ws = split_words(line.as_slice());
            if ws.len() > 1 {
                let f = crate::build_systems::common::make_failure(ws[1].as_slice(), line.as_slice());
                let ghost prev = failures@;
                failures.push(f);
                assert(failure_views(failures@) =~= failure_views(prev).push(plain_failure(views(ws@)[1], line@)));
            }
        }
    }
    assert(views(ls@).take(ls@.len() as int) =~= views(ls@));
    if total == 0 && !succeeded {
        total = 1;
        failed = 1;
    }
    (total, passed, failed, failures)
}

} // verus!
