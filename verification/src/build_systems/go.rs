//! Go build system.
use crate::build_systems::common::{
    failure_views, make_failure, owned, plain_failure, push_all, BuildSystemConfig, TestFailure,
    TestFailureView,
};
use crate::build_systems::context::{any_arg_starts_with, any_starts_with, BuildSystemContext};
use crate::paths::{join, path_join};
use crate::string_map::StringMap;
use crate::text::{concat, decimal, ends_with, ends_with_str, eq_str, string_views, usize_to_string};
use crate::text::{
    contains, contains_str, lines, skip_chars, split_char, split_lines, split_on, split_words,
    starts_with, starts_with_str, to_chars, views, words,
};
use vstd::prelude::*;

verus! {

/// Go build system
pub struct GoBuildSystem {
    config: BuildSystemConfig,
}

/// What the Go test-output parser has gathered after some lines.
pub struct GoScan {
    pub total: nat,
    pub passed: nat,
    pub failed: nat,
    pub failures: Seq<TestFailureView>,
    pub package: Seq<char>,
}

/// The name a `--- FAIL:` line gives its test: the first word after the prefix.
pub open spec fn go_failed_test_name(line: Seq<char>) -> Option<Seq<char>> {
    if starts_with(line, "--- FAIL: "@) && words(line.skip(10)).len() > 0 {
        Some(words(line.skip(10))[0])
    } else {
        None
    }
}

/// One line of `go test -v` output.
pub open spec fn go_step(st: GoScan, line: Seq<char>) -> GoScan {
    if starts_with(line, "=== RUN"@) {
        GoScan { total: st.total + 1, ..st }
    } else if starts_with(line, "--- PASS:"@) {
        GoScan { passed: st.passed + 1, ..st }
    } else if starts_with(line, "--- FAIL:"@) {
        match go_failed_test_name(line) {
            Some(name) => GoScan {
                failed: st.failed + 1,
                failures: st.failures.push(plain_failure(st.package + "/"@ + name, line)),
                ..st
            },
            None => GoScan { failed: st.failed + 1, ..st },
        }
    } else if starts_with(line, "--- SKIP:"@) {
        st
    } else if starts_with(line, "FAIL\t"@) || starts_with(line, "ok  \t"@) {
        if split_char(line, '\t').len() > 1 {
            GoScan { package: split_char(line, '\t')[1], ..st }
        } else {
            st
        }
    } else {
        st
    }
}

/// Each test line of `go test -v` output counts once: `=== RUN` adds a
/// test, `--- PASS:` a passed one, `--- FAIL:` a failed one; each leaves the
/// other counts as they were.
pub proof fn lemma_go_line_counts(st: GoScan, line: Seq<char>)
    ensures
        starts_with(line, "=== RUN"@) ==> go_step(st, line).total == st.total + 1
            && go_step(st, line).passed == st.passed && go_step(st, line).failed == st.failed,
        starts_with(line, "--- PASS:"@) ==> go_step(st, line).passed == st.passed + 1
            && go_step(st, line).total == st.total && go_step(st, line).failed == st.failed,
        starts_with(line, "--- FAIL:"@) ==> go_step(st, line).failed == st.failed + 1
            && go_step(st, line).total == st.total && go_step(st, line).passed == st.passed,
{
    reveal_strlit("=== RUN");
    reveal_strlit("--- PASS:");
    reveal_strlit("--- FAIL:");
    if starts_with(line, "--- PASS:"@) {
        assert(line.take(9)[0] == line[0]);
        assert(line[0] == '-');
        assert(!starts_with(line, "=== RUN"@)) by {
            assert(line.take(7)[0] == line[0]);
        }
    }
    if starts_with(line, "--- FAIL:"@) {
        assert(line.take(9)[0] == line[0]);
        assert(line.take(9)[4] == line[4]);
        assert(line[0] == '-');
        assert(line[4] == 'F');
        assert(!starts_with(line, "=== RUN"@)) by {
            assert(line.take(7)[0] == line[0]);
        }
        assert(!starts_with(line, "--- PASS:"@)) by {
            assert(line.take(9)[4] == line[4]);
        }
    }
}

/// The parser's state after the given lines.
pub open spec fn go_scan(ls: Seq<Seq<char>>) -> GoScan
    decreases ls.len(),
{
    if ls.len() == 0 {
        GoScan { total: 0, passed: 0, failed: 0, failures: seq![], package: seq![] }
    } else {
        go_step(go_scan(ls.drop_last()), ls.last())
    }
}

/// `(total, passed, failed, failures)` that Go's test output reports: the
/// counts of `=== RUN`, `--- PASS:` and `--- FAIL:` lines, each failure named
/// `<package>/<test>`; with no `=== RUN` line, one passed test when the output
/// holds `PASS`, else one failed test when it holds `FAIL`.
pub open spec fn go_test_report(output: Seq<char>) -> (nat, nat, nat, Seq<TestFailureView>) {
    let st = go_scan(lines(output));
    if st.total == 0 && contains(output, "PASS"@) {
        (1, 1, st.failed, st.failures)
    } else if st.total == 0 && contains(output, "FAIL"@) {
        (1, st.passed, 1, st.failures)
    } else {
        (st.total, st.passed, st.failed, st.failures)
    }
}

impl GoBuildSystem {
    /// Create a new Go build system instance
    pub fn new() -> (s: Self)
        ensures
            s.configuration().supports_out_of_source == false,
            s.configuration().supports_parallel_builds,
            s.configuration().supports_incremental_builds,
            s.configuration().default_configure_args@.len() == 0,
            s.configuration().default_build_args@.len() == 0,
            s.configuration().env_prefix matches Some(p) && p@ == "GO"@,
            s.configuration().watch_patterns@.len() == 4,
            s.configuration().watch_patterns@[0]@ == "go.mod"@,
            s.configuration().watch_patterns@[1]@ == "go.sum"@,
            s.configuration().watch_patterns@[2]@ == "**/*.go"@,
            s.configuration().watch_patterns@[3]@ == "vendor/**"@,
    {
        let mut watch = Vec::new();
        watch.push(owned("go.mod"));
        watch.push(owned("go.sum"));
        watch.push(owned("**/*.go"));
        watch.push(owned("vendor/**"));
        GoBuildSystem {
            config: BuildSystemConfig {
                supports_out_of_source: false,
                supports_parallel_builds: true,
                supports_incremental_builds: true,
                default_configure_args: Vec::new(),
                default_build_args: Vec::new(),
                env_prefix: Some(owned("GO")),
                watch_patterns: watch,
            },
        }
    }

    /// The configuration this instance was made with.
    pub closed spec fn configuration(&self) -> BuildSystemConfig {
        self.config
    }

    /// Parse go test output
    pub fn parse_test_output(&self, output: &str) -> (r: (usize, usize, usize, Vec<TestFailure>))
        ensures
            ({
                let spec = go_test_report(output@);
                &&& r.0 == spec.0
                &&& r.1 == spec.1
                &&& r.2 == spec.2
                &&& failure_views(r.3@) == spec.3
            }),
    {
        let text = to_chars(output);
        let ls = split_lines(text.as_slice());
        let mut total: usize = 0;
        let mut passed: usize = 0;
        let mut failed: usize = 0;
        let mut failures: Vec<TestFailure> = Vec::new();
        let mut package: Vec<char> = Vec::new();
        for i in 0..ls.len()
            invariant
                views(ls@) == lines(text@),
                ({
                    let st = go_scan(views(ls@).take(i as int));
                    &&& total == st.total
                    &&& passed == st.passed
                    &&& failed == st.failed
                    &&& failure_views(failures@) == st.failures
                    &&& package@ == st.package
                }),
                total <= i,
                passed <= i,
                failed <= i,
        {
            let line = &ls[i];
            proof {
                assert(views(ls@).take(i + 1).drop_last() == views(ls@).take(i as int));
            }
            if starts_with_str(line.as_slice(), "=== RUN") {
                total = total + 1;
            } else if starts_with_str(line.as_slice(), "--- PASS:") {
                passed = passed + 1;
            } else if starts_with_str(line.as_slice(), "--- FAIL:") {
                failed = failed + 1;
                if starts_with_str(line.as_slice(), "--- FAIL: ") {
                    proof {
                        reveal_strlit("--- FAIL: ");
                    }
                    let rest = skip_chars(line.as_slice(), 10);
                    let ws = split_words(rest.as_slice());
                    if ws.len() > 0 {
                        let mut name = package.clone();
                        let slash = to_chars("/");
                        push_all(&mut name, slash.as_slice());
                        push_all(&mut name, ws[0].as_slice());
                        let f = make_failure(name.as_slice(), line.as_slice());
                        failures.push(f);
                        assert(failure_views(failures@) =~= go_scan(views(ls@).take(i as int)).failures.push(
                            plain_failure(package@ + "/"@ + views(ws@)[0], line@),
                        ));
                    }
                }
            } else if starts_with_str(line.as_slice(), "--- SKIP:") {
            } else if starts_with_str(line.as_slice(), "FAIL\t") || starts_with_str(line.as_slice(), "ok  \t") {
                let pieces = split_on(line.as_slice(), '\t');
                if pieces.len() > 1 {
                    package = pieces[1].clone();
                }
            }
        }
        assert(views(ls@).take(ls@.len() as int) == views(ls@));
        if total == 0 && contains_str(text.as_slice(), "PASS") {
            total = 1;
            passed = 1;
        } else if total == 0 && contains_str(text.as_slice(), "FAIL") {
            total = 1;
            failed = 1;
        }
        (total, passed, failed, failures)
    }
}

/// Whether an argument names what to build: a `.go` file, a path, `.` or `./...`.
pub open spec fn is_build_target(w: Seq<char>) -> bool {
    ends_with(w, ".go"@) || contains(w, "/"@) || w == "."@ || w == "./..."@
}

/// The arguments of `go build`.
pub open spec fn go_build_args_of(
    user: Seq<Seq<char>>,
    vendor_exists: bool,
    jobs: usize,
    output: Seq<char>,
) -> Seq<Seq<char>> {
    let a0 = seq!["build"@];
    let a1 = if vendor_exists && !any_starts_with(user, "-mod="@) { a0.push("-mod=vendor"@) } else { a0 };
    let a2 = if !user.contains("-gcflags"@) { a1.push("-gcflags=all=-l"@) } else { a1 };
    let a3 = if !user.contains("-ldflags"@) { a2.push("-ldflags=-s -w"@) } else { a2 };
    let a4 = if jobs > 1 && !any_starts_with(user, "-p="@) { a3.push("-p="@ + decimal(jobs as nat)) } else { a3 };
    let a5 = a4 + user;
    let a6 = if !a5.contains("-o"@) { a5.push("-o"@).push(output) } else { a5 };
    if !(exists|i: int| 0 <= i < user.len() && is_build_target(#[trigger] user[i])) {
        a6.push("./..."@)
    } else {
        a6
    }
}

/// The Go name of an architecture.
pub open spec fn goarch_of(arch: Seq<char>) -> Seq<char> {
    if arch == "x86_64"@ || arch == "amd64"@ {
        "amd64"@
    } else if arch == "aarch64"@ || arch == "arm64"@ {
        "arm64"@
    } else if arch == "i386"@ || arch == "i686"@ {
        "386"@
    } else if arch == "armv7"@ {
        "arm"@
    } else {
        arch
    }
}

/// The variables a Go build adds.
pub open spec fn go_env_of(ctx: BuildSystemContext) -> Map<Seq<char>, Seq<char>> {
    let m0 = Map::<Seq<char>, Seq<char>>::empty().insert(
        "GOPATH"@,
        path_join(path_join(ctx.env.build_prefix@, "deps"@), "go"@),
    );
    let m1 = if !ctx.extra_env@.contains_key("CGO_ENABLED"@) { m0.insert("CGO_ENABLED"@, "0"@) } else { m0 };
    let m2 = if !ctx.network_allowed {
        m1.insert("GOPROXY"@, "off"@).insert("GONOPROXY"@, "none"@).insert("GONOSUMDB"@, "*"@).insert(
            "GOPRIVATE"@,
            "*"@,
        )
    } else {
        m1
    };
    let m3 = match ctx.cross_compilation {
        Some(c) => {
            let goarch = goarch_of(c.host_platform.arch@);
            let n1 = m2.insert("GOOS"@, c.host_platform.os@).insert("GOARCH"@, goarch);
            let n2 = if goarch == "arm"@ { n1.insert("GOARM"@, "7"@) } else { n1 };
            if ctx.extra_env@.contains_key("CGO_ENABLED"@) && ctx.extra_env@["CGO_ENABLED"@] == "1"@ {
                n2.insert("CC"@, c.toolchain.cc@).insert("CXX"@, c.toolchain.cxx@).insert("AR"@, c.toolchain.ar@)
            } else {
                n2
            }
        },
        None => m2,
    };
    match ctx.cache_config {
        Some(cc) => m3.insert("GOCACHE"@, path_join(cc.cache_dir@, "go-build"@)),
        None => m3,
    }
}

/// Whether `args` holds `s`.
pub fn contains_arg(args: &[String], s: &str) -> (r: bool)
    ensures
        r == string_views(args@).contains(s@),
{
    let sv = to_chars(s);
    for i in 0..args.len()
        invariant
            sv@ == s@,
            forall|j: int| 0 <= j < i ==> string_views(args@)[j] != s@,
    {
        let a = to_chars(args[i].as_str());
        if crate::text::chars_eq(a.as_slice(), sv.as_slice()) {
            assert(string_views(args@)[i as int] == s@);
            return true;
        }
    }
    false
}

fn is_build_target_exec(w: &String) -> (r: bool)
    ensures
        r == is_build_target(w@),
{
    let v = to_chars(w.as_str());
    ends_with_str(v.as_slice(), ".go") || contains_str(v.as_slice(), "/") || eq_str(v.as_slice(), ".")
        || eq_str(v.as_slice(), "./...")
}

fn goarch_exec(arch: &String) -> (r: String)
    ensures
        r@ == goarch_of(arch@),
{
    let v = to_chars(arch.as_str());
    if eq_str(v.as_slice(), "x86_64") || eq_str(v.as_slice(), "amd64") {
        owned("amd64")
    } else if eq_str(v.as_slice(), "aarch64") || eq_str(v.as_slice(), "arm64") {
        owned("arm64")
    } else if eq_str(v.as_slice(), "i386") || eq_str(v.as_slice(), "i686") {
        owned("386")
    } else if eq_str(v.as_slice(), "armv7") {
        owned("arm")
    } else {
        arch.clone()
    }
}

impl GoBuildSystem {
    /// The arguments of `go build`: vendored modules where a vendor directory
    /// exists, no inlining and no debug information unless the user sets
    /// them, the job count, the user's arguments, the output binary in the
    /// staging `bin` directory unless the user names one, and every package
    /// unless the user names a target.
    pub fn get_build_args(&self, ctx: &BuildSystemContext, user_args: &[String], vendor_exists: bool) -> (r: Vec<String>)
        ensures
            string_views(r@) == go_build_args_of(
                string_views(user_args@),
                vendor_exists,
                ctx.jobs,
                path_join(path_join(ctx.env.staging_dir@, "bin"@), ctx.env.name@),
            ),
    {
        let ghost user = string_views(user_args@);
        let ghost g0 = seq!["build"@];
        let ghost g1 = if vendor_exists && !any_starts_with(user, "-mod="@) { g0.push("-mod=vendor"@) } else { g0 };
        let ghost g2 = if !user.contains("-gcflags"@) { g1.push("-gcflags=all=-l"@) } else { g1 };
        let ghost g3 = if !user.contains("-ldflags"@) { g2.push("-ldflags=-s -w"@) } else { g2 };
        let ghost g4 = if ctx.jobs > 1 && !any_starts_with(user, "-p="@) { g3.push("-p="@ + decimal(ctx.jobs as nat)) } else { g3 };
        let mut args: Vec<String> = Vec::new();
        args.push(owned("build"));
        assert(string_views(args@) =~= g0);
        if vendor_exists && !any_arg_starts_with(user_args, "-mod=") {
            args.push(owned("-mod=vendor"));
        }
        assert(string_views(args@) =~= g1);
        if !contains_arg(user_args, "-gcflags") {
            args.push(owned("-gcflags=all=-l"));
        }
        assert(string_views(args@) =~= g2);
        if !contains_arg(user_args, "-ldflags") {
            args.push(owned("-ldflags=-s -w"));
        }
        assert(string_views(args@) =~= g3);
        if ctx.jobs > 1 && !any_arg_starts_with(user_args, "-p=") {
            let j = usize_to_string(ctx.jobs);
            args.push(concat("-p=", j.as_str()));
        }
        assert(string_views(args@) =~= g4);
        let ghost a4 = string_views(args@);
        for i in 0..user_args.len()
            invariant
                string_views(args@) == a4 + string_views(user_args@).take(i as int),
        {
            let ghost prev = args@;
            args.push(user_args[i].clone());
            assert(string_views(args@) =~= string_views(prev).push(user_args@[i as int]@));
            assert(string_views(user_args@).take(i + 1) =~= string_views(user_args@).take(i as int).push(user_args@[i as int]@));
        }
        assert(string_views(user_args@).take(user_args@.len() as int) =~= user);
        let ghost g5 = g4 + user;
        assert(string_views(args@) =~= g5);
        if !contains_arg(args.as_slice(), "-o") {
            args.push(owned("-o"));
            let bin = join(ctx.env.staging_dir.as_str(), "bin");
            args.push(join(bin.as_str(), ctx.env.name.as_str()));
        }
        let ghost g6 = if !g5.contains("-o"@) {
            g5.push("-o"@).push(path_join(path_join(ctx.env.staging_dir@, "bin"@), ctx.env.name@))
        } else {
            g5
        };
        assert(string_views(args@) =~= g6);
        let mut has_target = false;
        for i in 0..user_args.len()
            invariant
                has_target == (exists|j: int| 0 <= j < i && is_build_target(#[trigger] user[j])),
                user == string_views(user_args@),
        {
            if is_build_target_exec(&user_args[i]) {
                assert(is_build_target(user[i as int]));
                has_target = true;
            }
        }
        if !has_target {
            args.push(owned("./..."));
        }
        args
    }

    /// The variables a Go build adds: the module path under the
    /// dependencies, no cgo unless the user sets it, no module proxy without
    /// network, the target system and architecture of a cross build (with
    /// its compilers where cgo is on), and the build cache.
    pub fn get_env_vars(&self, ctx: &BuildSystemContext) -> (r: StringMap)
        requires
            ctx.wf(),
        ensures
            r.wf(),
            r@ == go_env_of(*ctx),
    {
        let mut vars = StringMap::new();
        let deps = ctx.env.deps_prefix();
        vars.insert(owned("GOPATH"), join(deps.as_str(), "go"));
        let has_cgo = ctx.extra_env.contains_key("CGO_ENABLED");
        if !has_cgo {
            vars.insert(owned("CGO_ENABLED"), owned("0"));
        }
        if !ctx.network_allowed {
            vars.insert(owned("GOPROXY"), owned("off"));
            vars.insert(owned("GONOPROXY"), owned("none"));
            vars.insert(owned("GONOSUMDB"), owned("*"));
            vars.insert(owned("GOPRIVATE"), owned("*"));
        }
        match &ctx.cross_compilation {
            Some(c) => {
                vars.insert(owned("GOOS"), c.host_platform.os.clone());
                let goarch = goarch_exec(&c.host_platform.arch);
                let is_arm = eq_str(to_chars(goarch.as_str()).as_slice(), "arm");
                vars.insert(owned("GOARCH"), goarch);
                if is_arm {
                    vars.insert(owned("GOARM"), owned("7"));
                }
                let cgo_on = match ctx.extra_env.get("CGO_ENABLED") {
                    Some(v) => eq_str(to_chars(v.as_str()).as_slice(), "1"),
                    None => false,
                };
                if cgo_on {
                    vars.insert(owned("CC"), c.toolchain.cc.clone());
                    vars.insert(owned("CXX"), c.toolchain.cxx.clone());
                    vars.insert(owned("AR"), c.toolchain.ar.clone());
                }
            },
            None => {},
        }
        match &ctx.cache_config {
            Some(cc) => {
                vars.insert(owned("GOCACHE"), join(cc.cache_dir.as_str(), "go-build"));
            },
            None => {},
        }
        vars
    }

    /// The build system's name.
    pub fn name(&self) -> (r: &'static str)
        ensures
            r@ == "go"@,
    {
        "go"
    }
}

/// The module a `go.mod` declares, from its lines: the rest of the first
/// line that starts with `module `, trimmed; `main` where none does.
pub open spec fn module_name_in(ls: Seq<Seq<char>>) -> Seq<char>
    decreases ls.len(),
{
    if ls.len() == 0 {
        "main"@
    } else if starts_with(ls[0], "module "@) {
        crate::text::trim(ls[0].skip(7))
    } else {
        module_name_in(ls.skip(1))
    }
}

/// The name of a Go module, from its `go.mod` where it has one; `main`
/// otherwise.
pub fn module_name(go_mod: Option<&str>) -> (r: String)
    ensures
        r@ == match go_mod {
            Some(c) => module_name_in(lines(c@)),
            None => "main"@,
        },
{
    match go_mod {
        None => owned("main"),
        Some(c) => {
            let ls = split_lines(to_chars(c).as_slice());
            let ghost all = views(ls@);
            let mut i: usize = 0;
            assert(all.skip(0) =~= all);
            while i < ls.len()
                invariant
                    go_mod == Some(c),
                    all == views(ls@),
                    all == lines(c@),
                    i <= ls@.len(),
                    module_name_in(all) == module_name_in(all.skip(i as int)),
                decreases ls@.len() - i,
            {
                let ghost rest = all.skip(i as int);
                assert(rest[0] == ls@[i as int]@);
                if starts_with_str(ls[i].as_slice(), "module ") {
                    proof {
                        reveal_strlit("module ");
                    }
                    let tail = skip_chars(ls[i].as_slice(), 7);
                    let t = crate::text::trim_exec(tail.as_slice());
                    assert(starts_with(rest[0], "module "@));
                    assert(module_name_in(rest) == crate::text::trim(rest[0].skip(7)));
                    return crate::text::from_chars(t.as_slice());
                }
                assert(rest.skip(1) =~= all.skip(i + 1));
                i = i + 1;
            }
            assert(all.skip(i as int) =~= Seq::<Seq<char>>::empty());
            owned("main")
        },
    }
}
/// The arguments of `go test`: vendored modules where there are any,
/// verbose output, parallel tests where there are jobs to spare, every package.
pub open spec fn go_test_args(jobs: usize, vendor_exists: bool) -> Seq<Seq<char>> {
    let head = if vendor_exists { seq!["test"@, "-mod=vendor"@, "-v"@] } else { seq!["test"@, "-v"@] };
    let par = if jobs > 1 { head + seq!["-parallel"@, decimal(jobs as nat)] } else { head };
    par.push("./..."@)
}

impl GoBuildSystem {
    /// The arguments the tests run with.
    pub fn test_args(&self, ctx: &BuildSystemContext, vendor_exists: bool) -> (r: Vec<String>)
        ensures
            string_views(r@) == go_test_args(ctx.jobs, vendor_exists),
    {
        let mut r: Vec<String> = Vec::new();
        r.push(owned("test"));
        if vendor_exists {
            r.push(owned("-mod=vendor"));
        }
        r.push(owned("-v"));
        if ctx.jobs > 1 {
            r.push(owned("-parallel"));
            r.push(usize_to_string(ctx.jobs));
        }
        r.push(owned("./..."));
        assert(string_views(r@) =~= go_test_args(ctx.jobs, vendor_exists));
        r
    }
}

} // verus!
