//! Cargo (Rust) build system.
use crate::build_systems::common::{
    failure_views, owned, push_all, BuildSystemConfig, TestFailure, TestFailureView,
};
use crate::text::{
    contains, contains_str, ends_with, eq_str, find_exec, first_occ, from_chars, lines,
    parse_usize, parse_usize_spec, skip_chars, split_char, split_lines, split_on, starts_with,
    starts_with_str, ends_with_str, take_chars, to_chars, trim, trim_exec, views,
};
use crate::build_systems::context::{any_arg_starts_with, any_starts_with, BuildSystemContext, CompilerCacheType};
use crate::build_systems::go::contains_arg;
use crate::paths::{join, path_join};
use crate::string_map::StringMap;
use crate::text::{concat, decimal, join_strings, join_with, string_views, usize_to_string};
use vstd::prelude::*;

verus! {

/// Cargo build system for Rust projects
pub struct CargoBuildSystem {
    config: BuildSystemConfig,
}

/// The counts after the `ok. ` or `FAILED. ` of a summary line: the text after
/// the first `". "`, or the whole line.
pub open spec fn cargo_stats_part(line: Seq<char>) -> Seq<char> {
    if contains(line, ". "@) {
        line.skip(first_occ(line, ". "@) + 2)
    } else {
        line
    }
}

/// One `;`-separated part such as ` 3 passed`: a number, a space, a word.
pub open spec fn cargo_part_step(st: (usize, usize, usize), raw: Seq<char>) -> (usize, usize, usize) {
    let part = trim(raw);
    if contains(part, " "@) {
        let k = first_occ(part, " "@);
        let rest = part.skip(k + 1);
        match parse_usize_spec(part.take(k)) {
            Some(n) => if starts_with(rest, "passed"@) {
                (n, st.1, st.2)
            } else if starts_with(rest, "failed"@) {
                (st.0, n, st.2)
            } else if starts_with(rest, "ignored"@) {
                (st.0, st.1, n)
            } else {
                st
            },
            None => st,
        }
    } else {
        st
    }
}

/// The passed, failed and ignored counts after the given parts.
pub open spec fn cargo_parts_scan(parts: Seq<Seq<char>>) -> (usize, usize, usize)
    decreases parts.len(),
{
    if parts.len() == 0 {
        (0, 0, 0)
    } else {
        cargo_part_step(cargo_parts_scan(parts.drop_last()), parts.last())
    }
}

/// The passed, failed and ignored counts that a summary line states (the last
/// statement of each wins).
pub open spec fn cargo_counts(line: Seq<char>) -> (usize, usize, usize) {
    cargo_parts_scan(split_char(cargo_stats_part(line), ';'))
}

/// The counts add up without overflow.
pub open spec fn cargo_summary_fits(line: Seq<char>) -> bool {
    let c = cargo_counts(line);
    c.0 + c.1 + c.2 <= usize::MAX
}

/// `(total, passed, failed)` of `test result: ok. X passed; Y failed; Z ignored; ...`,
/// with total = passed + failed + ignored; `None` when all three are zero.
pub open spec fn cargo_summary(line: Seq<char>) -> Option<(usize, usize, usize)> {
    let c = cargo_counts(line);
    if c.0 > 0 || c.1 > 0 || c.2 > 0 {
        Some(((c.0 + c.1 + c.2) as usize, c.0, c.1))
    } else {
        None
    }
}

/// Parse cargo test summary line
pub fn parse_cargo_test_summary(line: &str) -> (r: Option<(usize, usize, usize)>)
    requires
        cargo_summary_fits(line@),
    ensures
        r == cargo_summary(line@),
{
    let text = to_chars(line);
    summary_of_chars(text.as_slice())
}

fn summary_of_chars(text: &[char]) -> (r: Option<(usize, usize, usize)>)
    requires
        cargo_summary_fits(text@),
    ensures
        r == cargo_summary(text@),
{
    let dot = to_chars(". ");
    let n = text.len();
    proof {
        reveal_strlit(". ");
        assert(dot@.len() == 2);
    }
    let stats = match find_exec(text, dot.as_slice()) {
        Some(pos) => {
            proof {
                crate::text::lemma_first_occ_in_bounds(text@, ". "@);
            }
            skip_chars(text, pos + 2)
        },
        None => crate::text::copy_chars(text),
    };
    assert(stats@ == cargo_stats_part(text@));
    let parts = split_on(stats.as_slice(), ';');
    let space = to_chars(" ");
    proof {
        reveal_strlit(" ");
        assert(space@.len() == 1);
    }
    let mut passed: usize = 0;
    let mut failed: usize = 0;
    let mut ignored: usize = 0;
    for i in 0..parts.len()
        invariant
            views(parts@) == split_char(stats@, ';'),
            space@ == " "@,
            space@.len() == 1,
            (passed, failed, ignored) == cargo_parts_scan(views(parts@).take(i as int)),
    {
        proof {
            assert(views(parts@).take(i + 1).drop_last() == views(parts@).take(i as int));
        }
        let part = trim_exec(parts[i].as_slice());
        let plen = part.len();
        match find_exec(part.as_slice(), space.as_slice()) {
            Some(k) => {
                proof {
                    crate::text::lemma_first_occ_in_bounds(part@, " "@);
                }
                let num = take_chars(part.as_slice(), k);
                let rest = skip_chars(part.as_slice(), k + 1);
                match parse_usize(num.as_slice()) {
                    Some(n) => {
                        if starts_with_str(rest.as_slice(), "passed") {
                            passed = n;
                        } else if starts_with_str(rest.as_slice(), "failed") {
                            failed = n;
                        } else if starts_with_str(rest.as_slice(), "ignored") {
                            ignored = n;
                        }
                    },
                    None => {},
                }
            },
            None => {},
        }
    }
    assert(views(parts@).take(parts@.len() as int) == views(parts@));
    if passed > 0 || failed > 0 || ignored > 0 {
        Some((passed + failed + ignored, passed, failed))
    } else {
        None
    }
}

} // verus!

verus! {

/// What the cargo test-output parser has gathered after some lines.
pub struct CargoScan {
    pub total: usize,
    pub passed: usize,
    pub failed: usize,
    pub failures: Seq<TestFailureView>,
    /// The failure being read: its test name and the detail lines so far.
    pub current: Option<(Seq<char>, Seq<char>)>,
}

/// The test name of a `---- <name> stdout ----` header.
pub open spec fn cargo_failure_header(line: Seq<char>) -> Option<Seq<char>> {
    if starts_with(line, "---- "@) && ends_with(line.skip(5), " stdout ----"@) {
        Some(line.skip(5).take(line.len() - 5 - 12))
    } else {
        None
    }
}

/// One line of `cargo test` output.
pub open spec fn cargo_step(st: CargoScan, line: Seq<char>) -> CargoScan {
    if contains(line, "test result:"@) {
        match cargo_summary(line) {
            Some((t, p, f)) => CargoScan { total: t, passed: p, failed: f, ..st },
            None => st,
        }
    } else if contains(line, "---- "@) && contains(line, " stdout ----"@) {
        match cargo_failure_header(line) {
            Some(name) => CargoScan { current: Some((name, seq![])), ..st },
            None => st,
        }
    } else {
        match st.current {
            Some((name, details)) => if line == "failures:"@ {
                CargoScan {
                    failures: st.failures.push(
                        TestFailureView { name, message: seq![], details: Some(details) },
                    ),
                    current: None,
                    ..st
                }
            } else {
                CargoScan { current: Some((name, details + line + "\n"@)), ..st }
            },
            None => st,
        }
    }
}

/// The parser's state after the given lines.
pub open spec fn cargo_scan(ls: Seq<Seq<char>>) -> CargoScan
    decreases ls.len(),
{
    if ls.len() == 0 {
        CargoScan { total: 0, passed: 0, failed: 0, failures: seq![], current: None }
    } else {
        cargo_step(cargo_scan(ls.drop_last()), ls.last())
    }
}

/// Every summary line of the output adds up without overflow.
pub open spec fn cargo_output_fits(output: Seq<char>) -> bool {
    forall|i: int|
        0 <= i < lines(output).len() && contains(lines(output)[i], "test result:"@)
            ==> cargo_summary_fits(#[trigger] lines(output)[i])
}

impl CargoBuildSystem {
    /// Create a new Cargo build system instance
    pub fn new() -> (s: Self)
        ensures
            s.configuration().supports_out_of_source == false,
            s.configuration().supports_parallel_builds,
            s.configuration().supports_incremental_builds,
            s.configuration().default_configure_args@.len() == 0,
            s.configuration().default_build_args@.len() == 1,
            s.configuration().default_build_args@[0]@ == "--release"@,
            s.configuration().env_prefix matches Some(p) && p@ == "CARGO_"@,
            s.configuration().watch_patterns@.len() == 4,
            s.configuration().watch_patterns@[0]@ == "Cargo.toml"@,
            s.configuration().watch_patterns@[1]@ == "Cargo.lock"@,
            s.configuration().watch_patterns@[2]@ == "src/**/*.rs"@,
            s.configuration().watch_patterns@[3]@ == "build.rs"@,
    {
        let mut defaults = Vec::new();
        defaults.push(owned("--release"));
        let mut watch = Vec::new();
        watch.push(owned("Cargo.toml"));
        watch.push(owned("Cargo.lock"));
        watch.push(owned("src/**/*.rs"));
        watch.push(owned("build.rs"));
        CargoBuildSystem {
            config: BuildSystemConfig {
                supports_out_of_source: false,
                supports_parallel_builds: true,
                supports_incremental_builds: true,
                default_configure_args: Vec::new(),
                default_build_args: defaults,
                env_prefix: Some(owned("CARGO_")),
                watch_patterns: watch,
            },
        }
    }

    /// The configuration this instance was made with.
    pub closed spec fn configuration(&self) -> BuildSystemConfig {
        self.config
    }

    /// Parse cargo test output: the counts of the last summary line, and each
    /// `---- <name> stdout ----` block that a `failures:` line closes, its
    /// lines as details.
    pub fn parse_test_output(&self, output: &str) -> (r: (usize, usize, usize, Vec<TestFailure>))
        requires
            cargo_output_fits(output@),
        ensures
            ({
                let st = cargo_scan(lines(output@));
                &&& r.0 == st.total
                &&& r.1 == st.passed
                &&& r.2 == st.failed
                &&& failure_views(r.3@) == st.failures
            }),
    {
        let text = to_chars(output);
        let ls = split_lines(text.as_slice());
        let mut total: usize = 0;
        let mut passed: usize = 0;
        let mut failed: usize = 0;
        let mut failures: Vec<TestFailure> = Vec::new();
        let mut cur_name: Vec<char> = Vec::new();
        let mut cur_details: Vec<char> = Vec::new();
        let mut reading = false;
        let newline = to_chars("\n");
        for i in 0..ls.len()
            invariant
                views(ls@) == lines(text@),
                text@ == output@,
                cargo_output_fits(output@),
                newline@ == "\n"@,
                ({
                    let st = cargo_scan(views(ls@).take(i as int));
                    &&& total == st.total
                    &&& passed == st.passed
                    &&& failed == st.failed
                    &&& failure_views(failures@) == st.failures
                    &&& st.current == (if reading { Some((cur_name@, cur_details@)) } else { None })
                }),
        {
            let line = &ls[i];
            proof {
                assert(views(ls@).take(i + 1).drop_last() == views(ls@).take(i as int));
                assert(views(ls@)[i as int] == line@);
            }
            if contains_str(line.as_slice(), "test result:") {
                proof {
                    assert(cargo_summary_fits(lines(output@)[i as int]));
                }
                match summary_of_chars(line.as_slice()) {
                    Some((t, p, f)) => {
                        total = t;
                        passed = p;
                        failed = f;
                    },
                    None => {},
                }
            } else if contains_str(line.as_slice(), "---- ") && contains_str(line.as_slice(), " stdout ----") {
                if starts_with_str(line.as_slice(), "---- ") {
                    proof {
                        reveal_strlit("---- ");
                        reveal_strlit(" stdout ----");
                    }
                    let after = skip_chars(line.as_slice(), 5);
                    if ends_with_str(after.as_slice(), " stdout ----") {
                        cur_name = take_chars(after.as_slice(), after.len() - 12);
                        cur_details = Vec::new();
                        reading = true;
                    }
                }
            } else if reading {
                if eq_str(line.as_slice(), "failures:") {
                    let f = TestFailure {
                        name: from_chars(cur_name.as_slice()),
                        message: String::new(),
                        details: Some(from_chars(cur_details.as_slice())),
                    };
                    failures.push(f);
                    reading = false;
                    proof {
                        assert(failure_views(failures@) =~= cargo_scan(views(ls@).take(i as int)).failures.push(
                            TestFailureView { name: cur_name@, message: seq![], details: Some(cur_details@) },
                        ));
                    }
                } else {
                    push_all(&mut cur_details, line.as_slice());
                    push_all(&mut cur_details, newline.as_slice());
                }
            }
        }
        assert(views(ls@).take(ls@.len() as int) == views(ls@));
        (total, passed, failed, failures)
    }
}

/// The features that `--features=a,b` arguments list, in order.
pub open spec fn features_of(args: Seq<Seq<char>>) -> Seq<Seq<char>>
    decreases args.len(),
{
    if args.len() == 0 {
        Seq::empty()
    } else {
        let rest = features_of(args.drop_last());
        if starts_with(args.last(), "--features="@) {
            rest + split_char(args.last().skip(11), ',')
        } else {
            rest
        }
    }
}

/// The arguments without the `--features=` ones, in order.
pub open spec fn without_features(args: Seq<Seq<char>>) -> Seq<Seq<char>>
    decreases args.len(),
{
    if args.len() == 0 {
        Seq::empty()
    } else {
        let rest = without_features(args.drop_last());
        if starts_with(args.last(), "--features="@) {
            rest
        } else {
            rest.push(args.last())
        }
    }
}

/// The default build arguments that stay: those the user neither gives nor
/// overrides with `--debug`.
pub open spec fn cargo_defaults_kept(ds: Seq<Seq<char>>, user: Seq<Seq<char>>) -> Seq<Seq<char>>
    decreases ds.len(),
{
    if ds.len() == 0 {
        Seq::empty()
    } else {
        let rest = cargo_defaults_kept(ds.drop_last(), user);
        if !user.contains(ds.last()) && !user.contains("--debug"@) {
            rest.push(ds.last())
        } else {
            rest
        }
    }
}

/// The arguments of `cargo build`.
pub open spec fn cargo_build_args_of(
    defaults: Seq<Seq<char>>,
    jobs: usize,
    network_allowed: bool,
    target: Option<Seq<char>>,
    user: Seq<Seq<char>>,
) -> Seq<Seq<char>> {
    let a0 = seq!["build"@] + cargo_defaults_kept(defaults, user);
    let a1 = if jobs > 1 && !any_starts_with(user, "-j"@) { a0.push("-j"@ + decimal(jobs as nat)) } else { a0 };
    let a2 = if !network_allowed && !user.contains("--offline"@) { a1.push("--offline"@) } else { a1 };
    let a3 = match target {
        Some(t) => if !any_starts_with(user, "--target="@) { a2.push("--target="@ + t) } else { a2 },
        None => a2,
    };
    let fs = features_of(user);
    let a4 = if fs.len() > 0 { a3.push("--features"@).push(join_with(fs, ","@)) } else { a3 };
    a4 + without_features(user)
}

/// A triple with each `-` made `_`.
pub open spec fn underscored(s: Seq<char>) -> Seq<char> {
    s.map_values(|c: char| if c == '-' { '_' } else { c })
}

/// What `str::to_uppercase` gives for a text.
pub uninterp spec fn upper_case(s: Seq<char>) -> Seq<char>;

/// `str::to_uppercase`: the Unicode upper case of a text, which this
/// contract names and does not spell out.
#[verifier::external_body]
fn to_upper(s: &str) -> (r: String)
    ensures
        r@ == upper_case(s@),
{
    s.to_uppercase()
}

/// The variables a Cargo build adds, before those of a cross target.
pub open spec fn cargo_base_env_of(ctx: BuildSystemContext) -> Map<Seq<char>, Seq<char>> {
    let m = Map::<Seq<char>, Seq<char>>::empty()
        .insert("CARGO_TARGET_DIR"@, path_join(ctx.build_dir@, "target"@))
        .insert("CARGO_HOME"@, path_join(path_join(ctx.env.build_prefix@, "deps"@), ".cargo"@))
        .insert("CARGO_TERM_COLOR"@, "always"@)
        .insert("PROFILE"@, "release"@);
    match ctx.cache_config {
        Some(c) => if c.use_compiler_cache && c.compiler_cache_type == CompilerCacheType::SCCache {
            m.insert("RUSTC_WRAPPER"@, "sccache"@)
        } else {
            m
        },
        None => m,
    }
}

/// The linker and flags of a cross target, under the target's upper-case name.
pub open spec fn cargo_target_env(
    m: Map<Seq<char>, Seq<char>>,
    target_upper: Seq<char>,
    cc: Seq<char>,
    sysroot: Seq<char>,
) -> Map<Seq<char>, Seq<char>> {
    m.insert("CARGO_TARGET_"@ + target_upper + "_LINKER"@, cc).insert(
        "CARGO_TARGET_"@ + target_upper + "_RUSTFLAGS"@,
        "-C link-arg=--sysroot="@ + sysroot,
    )
}

/// Sets the linker and flags of a cross target whose upper-case name is given.
pub fn add_cargo_target_env(vars: &mut StringMap, target_upper: &str, cc: &str, sysroot: &str)
    requires
        old(vars).wf(),
    ensures
        final(vars).wf(),
        final(vars)@ == cargo_target_env(old(vars)@, target_upper@, cc@, sysroot@),
{
    let a = concat("CARGO_TARGET_", target_upper);
    vars.insert(concat(a.as_str(), "_LINKER"), owned(cc));
    vars.insert(concat(a.as_str(), "_RUSTFLAGS"), concat("-C link-arg=--sysroot=", sysroot));
}

fn underscored_exec(s: &str) -> (r: String)
    ensures
        r@ == underscored(s@),
{
    let v = to_chars(s);
    let mut out: Vec<char> = Vec::new();
    for i in 0..v.len()
        invariant
            v@ == s@,
            out@ == underscored(v@.take(i as int)),
    {
        let c = if v[i] == '-' { '_' } else { v[i] };
        out.push(c);
        assert(underscored(v@.take(i + 1)) =~= underscored(v@.take(i as int)).push(c));
    }
    assert(v@.take(v@.len() as int) =~= v@);
    from_chars(out.as_slice())
}

impl CargoBuildSystem {
    /// The features that the `--features=` arguments list.
    pub fn extract_features(&self, args: &[String]) -> (r: Vec<String>)
        ensures
            string_views(r@) == features_of(string_views(args@)),
    {
        let mut r: Vec<String> = Vec::new();
        for i in 0..args.len()
            invariant
                string_views(r@) == features_of(string_views(args@).take(i as int)),
        {
            let ghost t = string_views(args@).take(i + 1);
            assert(t.drop_last() =~= string_views(args@).take(i as int));
            assert(t.last() == args@[i as int]@);
            let a = to_chars(args[i].as_str());
            if starts_with_str(a.as_slice(), "--features=") {
                proof {
                    reveal_strlit("--features=");
                }
                let rest = skip_chars(a.as_slice(), 11);
                let pieces = split_on(rest.as_slice(), ',');
                let ghost prev = string_views(r@);
                for j in 0..pieces.len()
                    invariant
                        string_views(r@) == prev + views(pieces@).take(j as int),
                {
                    let ghost before = r@;
                    r.push(from_chars(pieces[j].as_slice()));
                    assert(string_views(r@) =~= string_views(before).push(pieces@[j as int]@));
                    assert(views(pieces@).take(j + 1) =~= views(pieces@).take(j as int).push(pieces@[j as int]@));
                }
                assert(views(pieces@).take(pieces@.len() as int) =~= views(pieces@));
            }
        }
        assert(string_views(args@).take(args@.len() as int) =~= string_views(args@));
        r
    }

    fn defaults_kept_exec(&self, user_args: &[String]) -> (r: Vec<String>)
        ensures
            string_views(r@) == cargo_defaults_kept(string_views(self.config.default_build_args@), string_views(user_args@)),
    {
        let ds = &self.config.default_build_args;
        let debug = contains_arg(user_args, "--debug");
        let mut r: Vec<String> = Vec::new();
        for i in 0..ds.len()
            invariant
                ds == &self.config.default_build_args,
                debug == string_views(user_args@).contains("--debug"@),
                string_views(r@) == cargo_defaults_kept(string_views(ds@).take(i as int), string_views(user_args@)),
        {
            let ghost t = string_views(ds@).take(i + 1);
            assert(t.drop_last() =~= string_views(ds@).take(i as int));
            assert(t.last() == ds@[i as int]@);
            if !contains_arg(user_args, ds[i].as_str()) && !debug {
                let ghost prev = r@;
                r.push(ds[i].clone());
                assert(string_views(r@) =~= string_views(prev).push(ds@[i as int]@));
            }
        }
        assert(string_views(ds@).take(ds@.len() as int) =~= string_views(ds@));
        r
    }

    /// The arguments of `cargo build`: the default `--release` unless the
    /// user gives it or `--debug`, the job count, offline mode without
    /// network, the cross target, the features gathered into one
    /// `--features` list, and the other user arguments.
    pub fn get_build_args(&self, ctx: &BuildSystemContext, user_args: &[String]) -> (r: Vec<String>)
        ensures
            string_views(r@) == cargo_build_args_of(
                string_views(self.configuration().default_build_args@),
                ctx.jobs,
                ctx.network_allowed,
                match ctx.cross_compilation {
                    Some(c) => Some(c.host_platform.triple_spec()),
                    None => None,
                },
                string_views(user_args@),
            ),
    {
        let ghost user = string_views(user_args@);
        let mut args: Vec<String> = Vec::new();
        args.push(owned("build"));
        let kept = self.defaults_kept_exec(user_args);
        let mut kept = kept;
        let ghost kv = string_views(kept@);
        args.append(&mut kept);
        let ghost g0 = seq!["build"@] + cargo_defaults_kept(string_views(self.config.default_build_args@), user);
        assert(string_views(args@) =~= g0);
        if ctx.jobs > 1 && !any_arg_starts_with(user_args, "-j") {
            let j = usize_to_string(ctx.jobs);
            args.push(concat("-j", j.as_str()));
        }
        let ghost g1 = if ctx.jobs > 1 && !any_starts_with(user, "-j"@) { g0.push("-j"@ + decimal(ctx.jobs as nat)) } else { g0 };
        assert(string_views(args@) =~= g1);
        if !ctx.network_allowed && !contains_arg(user_args, "--offline") {
            args.push(owned("--offline"));
        }
        let ghost g2 = if !ctx.network_allowed && !user.contains("--offline"@) { g1.push("--offline"@) } else { g1 };
        assert(string_views(args@) =~= g2);
        match &ctx.cross_compilation {
            Some(c) => {
                let t = c.host_platform.triple();
                if !any_arg_starts_with(user_args, "--target=") {
                    args.push(concat("--target=", t.as_str()));
                }
            },
            None => {},
        }
        let ghost g3 = match &ctx.cross_compilation {
            Some(c) => if !any_starts_with(user, "--target="@) { g2.push("--target="@ + c.host_platform.triple_spec()) } else { g2 },
            None => g2,
        };
        assert(string_views(args@) =~= g3);
        let features = self.extract_features(user_args);
        if features.len() > 0 {
            args.push(owned("--features"));
            args.push(join_strings(&features, ","));
        }
        let ghost fs = features_of(user);
        let ghost g4 = if fs.len() > 0 { g3.push("--features"@).push(join_with(fs, ","@)) } else { g3 };
        assert(string_views(args@) =~= g4);
        for i in 0..user_args.len()
            invariant
                user == string_views(user_args@),
                string_views(args@) == g4 + without_features(user.take(i as int)),
        {
            let ghost t = user.take(i + 1);
            assert(t.drop_last() =~= user.take(i as int));
            assert(t.last() == user_args@[i as int]@);
            let a = to_chars(user_args[i].as_str());
            if !starts_with_str(a.as_slice(), "--features=") {
                let ghost prev = args@;
                args.push(user_args[i].clone());
                assert(string_views(args@) =~= string_views(prev).push(user_args@[i as int]@));
            }
        }
        assert(user.take(user.len() as int) =~= user);
        args
    }

    /// The variables a Cargo build adds: the target directory under the build
    /// directory, the Cargo home under the dependencies, colour, the release
    /// profile, sccache as the compiler wrapper where configured, and the
    /// linker and sysroot of a cross target.
    pub fn get_env_vars(&self, ctx: &BuildSystemContext) -> (r: StringMap)
        ensures
            r.wf(),
            match ctx.cross_compilation {
                Some(c) => r@ == cargo_target_env(
                    cargo_base_env_of(*ctx),
                    upper_case(underscored(c.host_platform.triple_spec())),
                    c.toolchain.cc@,
                    c.sysroot@,
                ),
                None => r@ == cargo_base_env_of(*ctx),
            },
    {
        let mut vars = StringMap::new();
        vars.insert(owned("CARGO_TARGET_DIR"), join(ctx.build_dir.as_str(), "target"));
        let deps = ctx.env.deps_prefix();
        vars.insert(owned("CARGO_HOME"), join(deps.as_str(), ".cargo"));
        vars.insert(owned("CARGO_TERM_COLOR"), owned("always"));
        vars.insert(owned("PROFILE"), owned("release"));
        match &ctx.cache_config {
            Some(c) => {
                if c.use_compiler_cache && c.compiler_cache_type == CompilerCacheType::SCCache {
                    vars.insert(owned("RUSTC_WRAPPER"), owned("sccache"));
                }
            },
            None => {},
        }
        match &ctx.cross_compilation {
            Some(c) => {
                let t = c.host_platform.triple();
                let u = underscored_exec(t.as_str());
                let upper = to_upper(u.as_str());
                add_cargo_target_env(&mut vars, upper.as_str(), c.toolchain.cc.as_str(), c.sysroot.as_str());
            },
            None => {},
        }
        vars
    }

    /// The build system's name.
    pub fn name(&self) -> (r: &'static str)
        ensures
            r@ == "cargo"@,
    {
        "cargo"
    }

    /// Cargo manages its own target directory, so it does not ask for an
    /// out-of-source build.
    pub fn prefers_out_of_source_build(&self) -> (r: bool)
        ensures
            !r,
    {
        false
    }
}

/// Whether a `Cargo.toml` declares a workspace.
pub fn is_workspace_manifest(content: &str) -> (r: bool)
    ensures
        r == contains(content@, "[workspace]"@),
{
    contains_str(to_chars(content).as_slice(), "[workspace]")
}

/// The arguments of `cargo test`: release where the build was, offline
/// without the network, and a test thread per job where there are several.
pub open spec fn cargo_test_args(release: bool, network: bool, jobs: usize) -> Seq<Seq<char>> {
    let a = if release { seq!["test"@, "--release"@] } else { seq!["test"@] };
    let b = if !network { a.push("--offline"@) } else { a };
    if jobs > 1 {
        b + seq!["--"@, "--test-threads"@, decimal(jobs as nat)]
    } else {
        b
    }
}

impl CargoBuildSystem {
    /// The arguments the tests run with; the build's `PROFILE` says whether
    /// it was a release build.
    pub fn test_args(&self, ctx: &BuildSystemContext) -> (r: Vec<String>)
        requires
            ctx.extra_env.wf(),
        ensures
            string_views(r@) == cargo_test_args(
                ctx.extra_env@.contains_key("PROFILE"@) && ctx.extra_env@["PROFILE"@] == "release"@,
                ctx.network_allowed,
                ctx.jobs,
            ),
    {
        let release = match ctx.extra_env.get("PROFILE") {
            Some(p) => eq_str(to_chars(p.as_str()).as_slice(), "release"),
            None => false,
        };
        let mut r: Vec<String> = Vec::new();
        r.push(owned("test"));
        if release {
            r.push(owned("--release"));
        }
        if !ctx.network_allowed {
            r.push(owned("--offline"));
        }
        if ctx.jobs > 1 {
            r.push(owned("--"));
            r.push(owned("--test-threads"));
            r.push(usize_to_string(ctx.jobs));
        }
        assert(string_views(r@) =~= cargo_test_args(release, ctx.network_allowed, ctx.jobs));
        r
    }
}

} // verus!
