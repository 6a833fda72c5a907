//! Node.js build system (npm, yarn, pnpm).
use crate::build_systems::common::{
    count_word, failure_views, lemma_not_a_count, make_failure, owned, plain_failure, tally, tally_words, BuildSystemConfig,
    TestFailure, TestFailureView,
};
use crate::text::{
    contains, contains_str, find_exec, first_occ, lemma_first_occ_in_bounds, lines,
    parse_usize, parse_usize_spec, skip_chars, split_lines, split_words, starts_with,
    starts_with_str, string_views, take_chars, to_chars, views, words,
};
use crate::build_systems::context::BuildSystemContext;
use crate::paths::{join, join_full, path_join, path_join_full};
use crate::string_map::StringMap;
use crate::text::{concat, eq_str, from_chars, strip_start_char};
use serde_json::Value;
use vstd::prelude::*;

verus! {

/// Node.js build system supporting npm, yarn, and pnpm
pub struct NodeJsBuildSystem {
    config: BuildSystemConfig,
}

/// Node.js package managers
#[derive(Debug, Clone, Copy, PartialEq, Eq, Structural)]
pub enum PackageManager {
    Npm,
    Yarn,
    Pnpm,
}

impl PackageManager {
    /// The program that runs this package manager.
    pub fn command(&self) -> (r: &'static str)
        ensures
            r@ == (match *self {
                PackageManager::Npm => "npm"@,
                PackageManager::Yarn => "yarn"@,
                PackageManager::Pnpm => "pnpm"@,
            }),
    {
        match self {
            PackageManager::Npm => "npm",
            PackageManager::Yarn => "yarn",
            PackageManager::Pnpm => "pnpm",
        }
    }
}

/// The arguments of the install command: npm runs `ci` where a lock file
/// exists and `install` elsewhere; `--offline` comes second when offline.
pub open spec fn install_args(pm: PackageManager, offline: bool, has_lock_file: bool) -> Seq<Seq<char>> {
    let first = match pm {
        PackageManager::Npm => if has_lock_file { "ci"@ } else { "install"@ },
        _ => "install"@,
    };
    let head = if offline { seq![first, "--offline"@] } else { seq![first] };
    match pm {
        PackageManager::Npm => head + seq!["--no-audit"@, "--no-fund"@],
        PackageManager::Yarn => head + seq!["--frozen-lockfile"@, "--non-interactive"@],
        PackageManager::Pnpm => head + seq!["--frozen-lockfile"@],
    }
}

/// One line of Jest output: a `Tests: 1 failed, 2 passed, 3 total` line sets
/// the passed, failed and total counts it names.
pub open spec fn jest_step(st: (usize, usize, usize), line: Seq<char>) -> (usize, usize, usize) {
    if contains(line, "Tests:"@) && contains(line, "total"@) {
        tally(st, words(line), words(line).len(), ("passed"@, "failed"@, "total"@), false)
    } else {
        st
    }
}

/// A Jest summary line that reports passing tests only,
/// `Tests: <p> passed, <t> total`, sets the passed count to `p` and the
/// total to `t`; the failed count stays as it was.
pub proof fn lemma_jest_passed_total(st: (usize, usize, usize), line: Seq<char>, p: usize, t: usize)
    requires
        contains(line, "Tests:"@),
        contains(line, "total"@),
        words(line) == seq!["Tests:"@, count_word(p), "passed,"@, count_word(t), "total"@],
    ensures
        jest_step(st, line) == (p, st.1, t),
{
    reveal_strlit("Tests:");
    reveal_strlit("passed,");
    reveal_strlit("passed");
    reveal_strlit("failed");
    reveal_strlit("total");
    let ws = words(line);
    crate::text::lemma_parse_decimal(p);
    crate::text::lemma_parse_decimal(t);
    lemma_not_a_count(ws[0]);
    lemma_not_a_count(ws[2]);
    lemma_not_a_count(ws[4]);
    assert(ws[2] == "passed"@.push(','));
    assert(ws[4] != "passed"@ && ws[4] != "passed"@.push(','));
    assert(ws[4] != "failed"@ && ws[4] != "failed"@.push(','));
    reveal_with_fuel(tally, 6);
}

/// A Jest summary line with failures, `Tests: <f> failed, <p> passed,
/// <t> total`, sets all three counts.
pub proof fn lemma_jest_failed_passed_total(st: (usize, usize, usize), line: Seq<char>, f: usize, p: usize, t: usize)
    requires
        contains(line, "Tests:"@),
        contains(line, "total"@),
        words(line) == seq!["Tests:"@, count_word(f), "failed,"@, count_word(p), "passed,"@, count_word(t), "total"@],
    ensures
        jest_step(st, line) == (p, f, t),
{
    reveal_strlit("Tests:");
    reveal_strlit("failed,");
    reveal_strlit("passed,");
    reveal_strlit("passed");
    reveal_strlit("failed");
    reveal_strlit("total");
    let ws = words(line);
    crate::text::lemma_parse_decimal(f);
    crate::text::lemma_parse_decimal(p);
    crate::text::lemma_parse_decimal(t);
    lemma_not_a_count(ws[0]);
    lemma_not_a_count(ws[2]);
    lemma_not_a_count(ws[4]);
    lemma_not_a_count(ws[6]);
    assert(ws[2] != "passed"@ && ws[2] != "passed"@.push(','));
    assert(ws[2] == "failed"@.push(','));
    assert(ws[4] == "passed"@.push(','));
    assert(ws[6] != "passed"@ && ws[6] != "passed"@.push(','));
    assert(ws[6] != "failed"@ && ws[6] != "failed"@.push(','));
    reveal_with_fuel(tally, 8);
}

/// The passed, failed and total counts of Jest output after the given lines.
pub open spec fn jest_scan(ls: Seq<Seq<char>>) -> (usize, usize, usize)
    decreases ls.len(),
{
    if ls.len() == 0 {
        (0, 0, 0)
    } else {
        jest_step(jest_scan(ls.drop_last()), ls.last())
    }
}

/// The number that a line begins with, if its first word is one.
pub open spec fn leading_count(line: Seq<char>) -> Option<usize> {
    if words(line).len() > 0 {
        parse_usize_spec(words(line)[0])
    } else {
        None
    }
}

/// Mocha's counts: a total, and the passing and failing counts.
pub struct MochaScan {
    pub total: nat,
    pub passed: nat,
    pub failed: nat,
}

/// One line of Mocha output: `2 passing` sets the passed count and the
/// total; `1 failing` sets the failed count and adds it to the total.
pub open spec fn mocha_step(st: MochaScan, line: Seq<char>) -> MochaScan {
    let st1 = if contains(line, "passing"@) && leading_count(line) is Some {
        MochaScan { total: leading_count(line)->0 as nat, passed: leading_count(line)->0 as nat, ..st }
    } else {
        st
    };
    if contains(line, "failing"@) && leading_count(line) is Some {
        MochaScan {
            total: st1.total + leading_count(line)->0 as nat,
            failed: leading_count(line)->0 as nat,
            ..st1
        }
    } else {
        st1
    }
}

/// Mocha's counts after the given lines.
pub open spec fn mocha_scan(ls: Seq<Seq<char>>) -> MochaScan
    decreases ls.len(),
{
    if ls.len() == 0 {
        MochaScan { total: 0, passed: 0, failed: 0 }
    } else {
        mocha_step(mocha_scan(ls.drop_last()), ls.last())
    }
}

/// Mocha's running total stays within `usize` after every line.
pub open spec fn mocha_fits(ls: Seq<Seq<char>>) -> bool
    decreases ls.len(),
{
    ls.len() == 0 || (mocha_fits(ls.drop_last()) && mocha_scan(ls).total <= usize::MAX)
}

/// The description of a TAP line `not ok 2 - name`: the text between the
/// first ` - ` and the next one (or the end).
pub open spec fn tap_description(line: Seq<char>) -> Option<Seq<char>> {
    if contains(line, " - "@) {
        let rest = line.skip(first_occ(line, " - "@) + 3);
        if contains(rest, " - "@) {
            Some(rest.take(first_occ(rest, " - "@)))
        } else {
            Some(rest)
        }
    } else {
        None
    }
}

/// TAP counts: total, passed, failed, and the failures.
pub struct TapScan {
    pub total: nat,
    pub passed: nat,
    pub failed: nat,
    pub failures: Seq<TestFailureView>,
}

/// One line of TAP output.
pub open spec fn tap_step(st: TapScan, line: Seq<char>) -> TapScan {
    if starts_with(line, "ok "@) {
        TapScan { total: st.total + 1, passed: st.passed + 1, ..st }
    } else if starts_with(line, "not ok "@) {
        TapScan {
            total: st.total + 1,
            failed: st.failed + 1,
            failures: match tap_description(line) {
                Some(d) => st.failures.push(plain_failure(d, line)),
                None => st.failures,
            },
            ..st
        }
    } else {
        st
    }
}

/// TAP counts after the given lines.
pub open spec fn tap_scan(ls: Seq<Seq<char>>) -> TapScan
    decreases ls.len(),
{
    if ls.len() == 0 {
        TapScan { total: 0, passed: 0, failed: 0, failures: seq![] }
    } else {
        tap_step(tap_scan(ls.drop_last()), ls.last())
    }
}

/// `(total, passed, failed, failures)` that a test runner's output reports,
/// read as Jest, else Mocha, else TAP output; where none gave a total but the
/// output speaks of a test or spec, one test that failed (when it mentions
/// `failed` or `error`) or passed.
pub open spec fn node_test_report(output: Seq<char>) -> (nat, nat, nat, Seq<TestFailureView>) {
    let ls = lines(output);
    let found: (nat, nat, nat, Seq<TestFailureView>) = if contains(output, "Tests:"@) {
        let j = jest_scan(ls);
        (j.2 as nat, j.0 as nat, j.1 as nat, seq![])
    } else if contains(output, "passing"@) {
        let m = mocha_scan(ls);
        (m.total, m.passed, m.failed, seq![])
    } else if contains(output, "TAP version"@) || contains(output, "ok 1"@) {
        let t = tap_scan(ls);
        (t.total, t.passed, t.failed, t.failures)
    } else {
        (0, 0, 0, seq![])
    };
    if found.0 == 0 && (contains(output, "test"@) || contains(output, "spec"@)) {
        if contains(output, "failed"@) || contains(output, "error"@) {
            (1, found.1, 1, found.3)
        } else {
            (1, 1, found.2, found.3)
        }
    } else {
        found
    }
}

/// Jest output whose summary reports `<p>` passed of `<t>` tests, with no
/// failure, is reported as `t` tests, `p` passed, none failed.
pub proof fn lemma_jest_report_all_passed(output: Seq<char>, line: Seq<char>, p: usize, t: usize)
    requires
        t > 0,
        lines(output) == seq![line],
        contains(output, "Tests:"@),
        contains(line, "Tests:"@),
        contains(line, "total"@),
        words(line) == seq!["Tests:"@, count_word(p), "passed,"@, count_word(t), "total"@],
    ensures
        node_test_report(output) == (t as nat, p as nat, 0nat, Seq::<TestFailureView>::empty()),
{
    lemma_jest_passed_total((0, 0, 0), line, p, t);
    let ls = seq![line];
    assert(ls.drop_last() =~= Seq::<Seq<char>>::empty());
    assert(ls.last() == line);
    assert(jest_scan(ls.drop_last()) == (0usize, 0usize, 0usize));
    assert(jest_scan(ls) == jest_step((0, 0, 0), line));
}

/// The output can be counted without overflow: Mocha's running total fits.
pub open spec fn node_output_fits(output: Seq<char>) -> bool {
    !contains(output, "Tests:"@) && contains(output, "passing"@) ==> mocha_fits(lines(output))
}

fn jest_counts(ls: &Vec<Vec<char>>) -> (r: (usize, usize, usize))
    ensures
        r == jest_scan(views(ls@)),
{
    let mut st: (usize, usize, usize) = (0, 0, 0);
    for i in 0..ls.len()
        invariant
            st == jest_scan(views(ls@).take(i as int)),
    {
        proof {
            assert(views(ls@).take(i + 1).drop_last() == views(ls@).take(i as int));
        }
        let line = ls[i].as_slice();
        if contains_str(line, "Tests:") && contains_str(line, "total") {
            let ws = split_words(line);
            st = tally_words(&ws, st, "passed", "failed", "total", false);
        }
    }
    assert(views(ls@).take(ls@.len() as int) == views(ls@));
    st
}

fn leading_count_exec(line: &[char]) -> (r: Option<usize>)
    ensures
        r == leading_count(line@),
{
    let ws = split_words(line);
    if ws.len() > 0 {
        parse_usize(ws[0].as_slice())
    } else {
        None
    }
}

fn mocha_counts(ls: &Vec<Vec<char>>) -> (r: (usize, usize, usize))
    requires
        mocha_fits(views(ls@)),
    ensures
        ({
            let m = mocha_scan(views(ls@));
            r.0 == m.total && r.1 == m.passed && r.2 == m.failed
        }),
{
    let mut total: usize = 0;
    let mut passed: usize = 0;
    let mut failed: usize = 0;
    proof {
        lemma_mocha_fits_prefix(views(ls@), ls@.len() as int);
    }
    for i in 0..ls.len()
        invariant
            mocha_fits(views(ls@)),
            ({
                let m = mocha_scan(views(ls@).take(i as int));
                total == m.total && passed == m.passed && failed == m.failed
            }),
    {
        let ghost pre = views(ls@).take(i + 1);
        proof {
            assert(pre.drop_last() == views(ls@).take(i as int));
            lemma_mocha_fits_prefix(views(ls@), i + 1);
        }
        let line = ls[i].as_slice();
        if contains_str(line, "passing") {
            match leading_count_exec(line) {
                Some(n) => {
                    passed = n;
                    total = n;
                },
                None => {},
            }
        }
        if contains_str(line, "failing") {
            match leading_count_exec(line) {
                Some(n) => {
                    failed = n;
                    total = total + n;
                },
                None => {},
            }
        }
    }
    assert(views(ls@).take(ls@.len() as int) == views(ls@));
    (total, passed, failed)
}

/// A prefix of lines whose running totals fit also fits, and its last total fits.
proof fn lemma_mocha_fits_prefix(ls: Seq<Seq<char>>, k: int)
    requires
        mocha_fits(ls),
        0 <= k <= ls.len(),
    ensures
        mocha_fits(ls.take(k)),
        k > 0 ==> mocha_scan(ls.take(k)).total <= usize::MAX,
    decreases ls.len(),
{
    if k < ls.len() {
        assert(ls.drop_last().take(k) == ls.take(k));
        lemma_mocha_fits_prefix(ls.drop_last(), k);
    } else {
        assert(ls.take(k) == ls);
    }
}

fn tap_description_exec(line: &[char]) -> (r: Option<Vec<char>>)
    ensures
        match r {
            Some(d) => tap_description(line@) == Some(d@),
            None => tap_description(line@) is None,
        },
{
    let sep = to_chars(" - ");
    let _n = line.len();
    proof {
        reveal_strlit(" - ");
    }
    match find_exec(line, sep.as_slice()) {
        Some(k) => {
            proof {
                lemma_first_occ_in_bounds(line@, " - "@);
            }
            let rest = skip_chars(line, k + 3);
            match find_exec(rest.as_slice(), sep.as_slice()) {
                Some(j) => {
                    proof {
                        lemma_first_occ_in_bounds(rest@, " - "@);
                    }
                    Some(take_chars(rest.as_slice(), j))
                },
                None => Some(rest),
            }
        },
        None => None,
    }
}

fn tap_counts(ls: &Vec<Vec<char>>) -> (r: (usize, usize, usize, Vec<TestFailure>))
    ensures
        ({
            let t = tap_scan(views(ls@));
            &&& r.0 == t.total
            &&& r.1 == t.passed
            &&& r.2 == t.failed
            &&& failure_views(r.3@) == t.failures
        }),
{
    let mut total: usize = 0;
    let mut passed: usize = 0;
    let mut failed: usize = 0;
    let mut failures: Vec<TestFailure> = Vec::new();
    for i in 0..ls.len()
        invariant
            total <= i,
            passed <= i,
            failed <= i,
            ({
                let t = tap_scan(views(ls@).take(i as int));
                &&& total == t.total
                &&& passed == t.passed
                &&& failed == t.failed
                &&& failure_views(failures@) == t.failures
            }),
    {
        proof {
            assert(views(ls@).take(i + 1).drop_last() == views(ls@).take(i as int));
        }
        let line = ls[i].as_slice();
        if starts_with_str(line, "ok ") {
            total = total + 1;
            passed = passed + 1;
        } else if starts_with_str(line, "not ok ") {
            total = total + 1;
            failed = failed + 1;
            match tap_description_exec(line) {
                Some(d) => {
                    let f = make_failure(d.as_slice(), line);
                    failures.push(f);
                    assert(failure_views(failures@) =~= tap_scan(views(ls@).take(i as int)).failures.push(
                        plain_failure(d@, line@),
                    ));
                },
                None => {},
            }
        }
    }
    assert(views(ls@).take(ls@.len() as int) == views(ls@));
    (total, passed, failed, failures)
}

impl NodeJsBuildSystem {
    /// Create a new Node.js build system instance
    pub fn new() -> (s: Self)
        ensures
            !s.configuration().supports_out_of_source,
            s.configuration().supports_parallel_builds,
            s.configuration().supports_incremental_builds,
            s.configuration().default_configure_args@.len() == 0,
            s.configuration().default_build_args@.len() == 0,
            s.configuration().env_prefix matches Some(p) && p@ == "NODE_"@,
            string_views(s.configuration().watch_patterns@) == seq![
                "package.json"@,
                "package-lock.json"@,
                "yarn.lock"@,
                "pnpm-lock.yaml"@,
                "**/*.js"@,
                "**/*.ts"@,
                "**/*.jsx"@,
                "**/*.tsx"@,
            ],
    {
        let mut watch = Vec::new();
        watch.push(owned("package.json"));
        watch.push(owned("package-lock.json"));
        watch.push(owned("yarn.lock"));
        watch.push(owned("pnpm-lock.yaml"));
        watch.push(owned("**/*.js"));
        watch.push(owned("**/*.ts"));
        watch.push(owned("**/*.jsx"));
        watch.push(owned("**/*.tsx"));
        let s = NodeJsBuildSystem {
            config: BuildSystemConfig {
                supports_out_of_source: false,
                supports_parallel_builds: true,
                supports_incremental_builds: true,
                default_configure_args: Vec::new(),
                default_build_args: Vec::new(),
                env_prefix: Some(owned("NODE_")),
                watch_patterns: watch,
            },
        };
        assert(string_views(s.config.watch_patterns@) =~= seq![
            "package.json"@,
            "package-lock.json"@,
            "yarn.lock"@,
            "pnpm-lock.yaml"@,
            "**/*.js"@,
            "**/*.ts"@,
            "**/*.jsx"@,
            "**/*.tsx"@,
        ]);
        s
    }

    /// The configuration this instance was made with.
    pub closed spec fn configuration(&self) -> BuildSystemConfig {
        self.config
    }

    /// Get install command for package manager
    pub fn get_install_command(&self, pm: &PackageManager, offline: bool, has_lock_file: bool) -> (r: Vec<String>)
        ensures
            string_views(r@) == install_args(*pm, offline, has_lock_file),
    {
        let mut args: Vec<String> = Vec::new();
        match pm {
            PackageManager::Npm => {
                if has_lock_file {
                    args.push(owned("ci"));
                } else {
                    args.push(owned("install"));
                }
                if offline {
                    args.push(owned("--offline"));
                }
                args.push(owned("--no-audit"));
                args.push(owned("--no-fund"));
            },
            PackageManager::Yarn => {
                args.push(owned("install"));
                if offline {
                    args.push(owned("--offline"));
                }
                args.push(owned("--frozen-lockfile"));
                args.push(owned("--non-interactive"));
            },
            PackageManager::Pnpm => {
                args.push(owned("install"));
                if offline {
                    args.push(owned("--offline"));
                }
                args.push(owned("--frozen-lockfile"));
            },
        }
        assert(string_views(args@) =~= install_args(*pm, offline, has_lock_file));
        args
    }

    /// Parse test output from various test runners
    pub fn parse_test_output(&self, output: &str) -> (r: (usize, usize, usize, Vec<TestFailure>))
        requires
            node_output_fits(output@),
        ensures
            ({
                let spec = node_test_report(output@);
                &&& r.0 == spec.0
                &&& r.1 == spec.1
                &&& r.2 == spec.2
                &&& failure_views(r.3@) == spec.3
            }),
    {
        let text = to_chars(output);
        let ls = split_lines(text.as_slice());
        let t = text.as_slice();
        let (total, passed, failed, failures) = if contains_str(t, "Tests:") {
            let j = jest_counts(&ls);
            (j.2, j.0, j.1, Vec::new())
        } else if contains_str(t, "passing") {
            let m = mocha_counts(&ls);
            (m.0, m.1, m.2, Vec::new())
        } else if contains_str(t, "TAP version") || contains_str(t, "ok 1") {
            tap_counts(&ls)
        } else {
            (0, 0, 0, Vec::new())
        };
        proof {
            assert(failure_views(Seq::<TestFailure>::empty()) =~= Seq::<TestFailureView>::empty());
        }
        if total == 0 && (contains_str(t, "test") || contains_str(t, "spec")) {
            if contains_str(t, "failed") || contains_str(t, "error") {
                (1, passed, 1, failures)
            } else {
                (1, 1, failed, failures)
            }
        } else {
            (total, passed, failed, failures)
        }
    }
}

/// The package manager of a project: the one whose lock file is there
/// (pnpm, then yarn, then npm), else the one a `packageManager` field of
/// `package.json` names, else npm.
pub open spec fn package_manager_of(
    pnpm_lock: bool,
    yarn_lock: bool,
    npm_lock: bool,
    package_json: Option<Seq<char>>,
) -> PackageManager {
    if pnpm_lock {
        PackageManager::Pnpm
    } else if yarn_lock {
        PackageManager::Yarn
    } else if npm_lock {
        PackageManager::Npm
    } else {
        match package_json {
            Some(c) => if contains(c, "\"packageManager\""@) {
                if contains(c, "pnpm@"@) {
                    PackageManager::Pnpm
                } else if contains(c, "yarn@"@) {
                    PackageManager::Yarn
                } else {
                    PackageManager::Npm
                }
            } else {
                PackageManager::Npm
            },
            None => PackageManager::Npm,
        }
    }
}

/// The name a package manager is recorded under.
pub open spec fn pm_name(pm: PackageManager) -> Seq<char> {
    match pm {
        PackageManager::Npm => "Npm"@,
        PackageManager::Yarn => "Yarn"@,
        PackageManager::Pnpm => "Pnpm"@,
    }
}

/// The lock file of a package manager.
pub open spec fn lock_file_of(pm: PackageManager) -> Seq<char> {
    match pm {
        PackageManager::Npm => "package-lock.json"@,
        PackageManager::Yarn => "yarn.lock"@,
        PackageManager::Pnpm => "pnpm-lock.yaml"@,
    }
}

/// The script that builds a package: `build`, `compile` or `dist`, the first
/// that `package.json` defines.
pub open spec fn build_script_of(content: Seq<char>) -> Option<Seq<char>> {
    if contains(content, "\"build\":"@) {
        Some("build"@)
    } else if contains(content, "\"compile\":"@) {
        Some("compile"@)
    } else if contains(content, "\"dist\":"@) {
        Some("dist"@)
    } else {
        None
    }
}

/// The arguments that run a script, with the user's arguments after `--`.
pub open spec fn run_script_args_of(script: Seq<char>, args: Seq<Seq<char>>) -> Seq<Seq<char>> {
    if args.len() == 0 {
        seq!["run"@, script]
    } else {
        seq!["run"@, script, "--"@] + args
    }
}

/// The variables a Node.js build adds.
pub open spec fn nodejs_env_of(ctx: BuildSystemContext) -> Map<Seq<char>, Seq<char>> {
    let m = Map::<Seq<char>, Seq<char>>::empty()
        .insert("NODE_ENV"@, "production"@)
        .insert("DISABLE_OPENCOLLECTIVE"@, "1"@)
        .insert("ADBLOCK"@, "1"@)
        .insert("DISABLE_TELEMETRY"@, "1"@)
        .insert("NO_UPDATE_NOTIFIER"@, "1"@)
        .insert("NPM_CONFIG_LOGLEVEL"@, "warn"@)
        .insert("NPM_CONFIG_FUND"@, "false"@)
        .insert("NPM_CONFIG_AUDIT"@, "false"@);
    match ctx.cache_config {
        Some(c) => m.insert("NPM_CONFIG_CACHE"@, path_join(c.cache_dir@, "npm"@)).insert(
            "YARN_CACHE_FOLDER"@,
            path_join(c.cache_dir@, "yarn"@),
        ).insert("PNPM_HOME"@, path_join(c.cache_dir@, "pnpm"@)),
        None => m,
    }
}

/// The package's prefix in the staging directory, without its leading `/`.
pub open spec fn node_prefix_in_staging(ctx: BuildSystemContext) -> Seq<char> {
    path_join(ctx.env.staging_dir@, strip_start_char("/"@ + ctx.env.name@ + "-"@ + ctx.env.version@, '/'))
}

/// The output directories a Node.js build may leave, in the order they are copied.
pub open spec fn output_dir_names() -> Seq<Seq<char>> {
    seq!["dist"@, "build"@, "out"@, "lib"@]
}

/// The `bin` field of a `package.json`.
#[derive(Clone, Debug)]
pub enum BinField {
    /// No `bin` field
    Missing,
    /// One script, installed under the package's name
    Script(String),
    /// Commands and their scripts; a script that is no string is `None`
    Table(Vec<(String, Option<String>)>),
    /// A `bin` field of another kind
    Other,
}

/// What a `package.json` says about the commands it installs.
#[derive(Clone, Debug)]
pub struct PackageBins {
    /// The package's name, where it is a string
    pub name: Option<String>,
    /// The `bin` field
    pub bin: BinField,
}

/// The view of a `bin` field.
pub enum BinFieldView {
    Missing,
    Script(Seq<char>),
    Table(Seq<(Seq<char>, Option<Seq<char>>)>),
    Other,
}

/// The view of what a `package.json` says about its commands.
pub struct PackageBinsView {
    pub name: Option<Seq<char>>,
    pub bin: BinFieldView,
}

impl View for PackageBins {
    type V = PackageBinsView;

    open spec fn view(&self) -> PackageBinsView {
        PackageBinsView {
            name: match self.name {
                Some(n) => Some(n@),
                None => None,
            },
            bin: match self.bin {
                BinField::Missing => BinFieldView::Missing,
                BinField::Script(s) => BinFieldView::Script(s@),
                BinField::Table(t) => BinFieldView::Table(
                    t@.map_values(
                        |e: (String, Option<String>)|
                            (
                                e.0@,
                                match e.1 {
                                    Some(v) => Some(v@),
                                    None => None,
                                },
                            ),
                    ),
                ),
                BinField::Other => BinFieldView::Other,
            },
        }
    }
}

/// What `serde_json` reads from a `package.json` text: its name and `bin`
/// field, or nothing where the text is no JSON.
pub uninterp spec fn package_bins_of(content: Seq<char>) -> Option<PackageBinsView>;

/// `serde_json::from_str` of a `package.json`, keeping the `name` string and
/// the `bin` field; the entries of a `bin` object come in the order that
/// `serde_json` keeps them. This contract names the result and does not
/// spell out JSON.
#[verifier::external_body]
fn read_package_bins(content: &str) -> (r: Option<PackageBins>)
    ensures
        match r {
            Some(b) => package_bins_of(content@) == Some(b@),
            None => package_bins_of(content@) is None,
        },
{
    let json: Value = serde_json::from_str(content).ok()?;
    let name = json.get("name").and_then(Value::as_str).map(String::from);
    let bin = match json.get("bin") {
        None => BinField::Missing,
        Some(Value::String(s)) => BinField::Script(s.clone()),
        Some(Value::Object(m)) => BinField::Table(m.iter().map(|(k, v)| (k.clone(), v.as_str().map(String::from))).collect()),
        Some(_) => BinField::Other,
    };
    Some(PackageBins { name, bin })
}

/// The scripts to install as commands, each from the source directory to
/// the `bin` directory of the staging prefix; an absolute script or command
/// name stands for itself.
pub open spec fn bin_copies_of(source: Seq<char>, prefix: Seq<char>, bins: PackageBinsView) -> Seq<(Seq<char>, Seq<char>)> {
    let dest_bin = path_join(prefix, "bin"@);
    match bins.bin {
        BinFieldView::Script(s) => seq![
            (
                path_join_full(source, s),
                path_join_full(
                    dest_bin,
                    match bins.name {
                        Some(n) => n,
                        None => "bin"@,
                    },
                ),
            ),
        ],
        BinFieldView::Table(t) => table_copies(source, dest_bin, t),
        _ => Seq::empty(),
    }
}

/// The copies that a `bin` table asks for: each entry whose script is a string.
pub open spec fn table_copies(
    source: Seq<char>,
    dest_bin: Seq<char>,
    t: Seq<(Seq<char>, Option<Seq<char>>)>,
) -> Seq<(Seq<char>, Seq<char>)>
    decreases t.len(),
{
    if t.len() == 0 {
        Seq::empty()
    } else {
        let rest = table_copies(source, dest_bin, t.drop_last());
        match t.last().1 {
            Some(v) => rest.push((path_join_full(source, v), path_join_full(dest_bin, t.last().0))),
            None => rest,
        }
    }
}

/// The views of pairs of strings.
pub open spec fn pair_views(v: Seq<(String, String)>) -> Seq<(Seq<char>, Seq<char>)> {
    v.map_values(|p: (String, String)| (p.0@, p.1@))
}

fn has(content: &str, t: &str) -> (r: bool)
    ensures
        r == contains(content@, t@),
{
    contains_str(to_chars(content).as_slice(), t)
}

fn node_prefix_exec(ctx: &BuildSystemContext) -> (r: String)
    ensures
        r@ == node_prefix_in_staging(*ctx),
{
    let bp = ctx.env.get_build_prefix();
    let t = crate::text::strip_start_char_exec(to_chars(bp.as_str()).as_slice(), '/');
    join(ctx.env.staging_dir.as_str(), from_chars(t.as_slice()).as_str())
}

impl PackageManager {
    /// The package manager of a project, from which lock files exist and
    /// what `package.json` holds, if it exists.
    pub fn detect_from(pnpm_lock: bool, yarn_lock: bool, npm_lock: bool, package_json: Option<&str>) -> (r: PackageManager)
        ensures
            r == package_manager_of(
                pnpm_lock,
                yarn_lock,
                npm_lock,
                match package_json {
                    Some(c) => Some(c@),
                    None => None,
                },
            ),
    {
        if pnpm_lock {
            PackageManager::Pnpm
        } else if yarn_lock {
            PackageManager::Yarn
        } else if npm_lock {
            PackageManager::Npm
        } else {
            match package_json {
                Some(c) => if has(c, "\"packageManager\"") {
                    if has(c, "pnpm@") {
                        PackageManager::Pnpm
                    } else if has(c, "yarn@") {
                        PackageManager::Yarn
                    } else {
                        PackageManager::Npm
                    }
                } else {
                    PackageManager::Npm
                },
                None => PackageManager::Npm,
            }
        }
    }

    /// The name the package manager is recorded under.
    pub fn record_name(&self) -> (r: &'static str)
        ensures
            r@ == pm_name(*self),
    {
        match self {
            PackageManager::Npm => "Npm",
            PackageManager::Yarn => "Yarn",
            PackageManager::Pnpm => "Pnpm",
        }
    }

    /// The package manager a recorded name stands for; npm for any other name.
    pub fn from_record_name(name: &str) -> (r: PackageManager)
        ensures
            r == (if name@ == "Yarn"@ {
                PackageManager::Yarn
            } else if name@ == "Pnpm"@ {
                PackageManager::Pnpm
            } else {
                PackageManager::Npm
            }),
    {
        let v = to_chars(name);
        if eq_str(v.as_slice(), "Yarn") {
            PackageManager::Yarn
        } else if eq_str(v.as_slice(), "Pnpm") {
            PackageManager::Pnpm
        } else {
            PackageManager::Npm
        }
    }

    /// The lock file this package manager writes.
    pub fn lock_file(&self) -> (r: &'static str)
        ensures
            r@ == lock_file_of(*self),
    {
        match self {
            PackageManager::Npm => "package-lock.json",
            PackageManager::Yarn => "yarn.lock",
            PackageManager::Pnpm => "pnpm-lock.yaml",
        }
    }

    /// The file and text that put the package manager offline, where it
    /// takes one (yarn takes a command-line flag instead).
    pub fn offline_config(&self) -> (r: Option<(&'static str, &'static str)>)
        ensures
            match *self {
                PackageManager::Npm => r matches Some((f, c)) && f@ == ".npmrc"@ && c@ == "offline=true\n"@,
                PackageManager::Yarn => r is None,
                PackageManager::Pnpm => r matches Some((f, c)) && f@ == ".pnpmrc"@ && c@ == "offline=true\n"@,
            },
    {
        match self {
            PackageManager::Npm => Some((".npmrc", "offline=true\n")),
            PackageManager::Yarn => None,
            PackageManager::Pnpm => Some((".pnpmrc", "offline=true\n")),
        }
    }
}

impl NodeJsBuildSystem {
    /// Whether `package.json` lists dependencies or development dependencies.
    pub fn has_dependencies(content: &str) -> (r: bool)
        ensures
            r == (contains(content@, "\"dependencies\""@) || contains(content@, "\"devDependencies\""@)),
    {
        has(content, "\"dependencies\"") || has(content, "\"devDependencies\"")
    }

    /// Whether `package.json` defines a test script.
    pub fn has_test_script(content: &str) -> (r: bool)
        ensures
            r == contains(content@, "\"test\":"@),
    {
        has(content, "\"test\":")
    }

    /// The script that builds the package, if `package.json` defines one.
    pub fn get_build_script(content: &str) -> (r: Option<&'static str>)
        ensures
            match r {
                Some(s) => build_script_of(content@) == Some(s@),
                None => build_script_of(content@) is None,
            },
    {
        if has(content, "\"build\":") {
            Some("build")
        } else if has(content, "\"compile\":") {
            Some("compile")
        } else if has(content, "\"dist\":") {
            Some("dist")
        } else {
            None
        }
    }

    /// The arguments that run a script with the user's arguments.
    pub fn run_script_args(script: &str, args: &[String]) -> (r: Vec<String>)
        ensures
            string_views(r@) == run_script_args_of(script@, string_views(args@)),
    {
        let mut r: Vec<String> = Vec::new();
        r.push(owned("run"));
        r.push(owned(script));
        if args.len() > 0 {
            r.push(owned("--"));
        }
        let ghost head = string_views(r@);
        for i in 0..args.len()
            invariant
                string_views(r@) == head + string_views(args@).take(i as int),
        {
            let ghost prev = r@;
            r.push(args[i].clone());
            assert(string_views(r@) =~= string_views(prev).push(args@[i as int]@));
            assert(string_views(args@).take(i + 1) =~= string_views(args@).take(i as int).push(args@[i as int]@));
        }
        assert(string_views(args@).take(args@.len() as int) =~= string_views(args@));
        assert(string_views(r@) =~= run_script_args_of(script@, string_views(args@)));
        r
    }

    /// The variables a Node.js build adds: production mode, no telemetry,
    /// funding or audit chatter, and the package caches under the cache directory.
    pub fn get_env_vars(&self, ctx: &BuildSystemContext) -> (r: StringMap)
        ensures
            r.wf(),
            r@ == nodejs_env_of(*ctx),
    {
        let mut vars = StringMap::new();
        vars.insert(owned("NODE_ENV"), owned("production"));
        vars.insert(owned("DISABLE_OPENCOLLECTIVE"), owned("1"));
        vars.insert(owned("ADBLOCK"), owned("1"));
        vars.insert(owned("DISABLE_TELEMETRY"), owned("1"));
        vars.insert(owned("NO_UPDATE_NOTIFIER"), owned("1"));
        vars.insert(owned("NPM_CONFIG_LOGLEVEL"), owned("warn"));
        vars.insert(owned("NPM_CONFIG_FUND"), owned("false"));
        vars.insert(owned("NPM_CONFIG_AUDIT"), owned("false"));
        match &ctx.cache_config {
            Some(c) => {
                vars.insert(owned("NPM_CONFIG_CACHE"), join(c.cache_dir.as_str(), "npm"));
                vars.insert(owned("YARN_CACHE_FOLDER"), join(c.cache_dir.as_str(), "yarn"));
                vars.insert(owned("PNPM_HOME"), join(c.cache_dir.as_str(), "pnpm"));
            },
            None => {},
        }
        vars
    }

    /// The output directories to copy: each of `dist`, `build`, `out` and
    /// `lib` in the source directory, to the same name under the staging prefix.
    pub fn output_dir_copies(ctx: &BuildSystemContext) -> (r: Vec<(String, String)>)
        ensures
            pair_views(r@) == output_dir_names().map_values(
                |d: Seq<char>| (path_join(ctx.source_dir@, d), path_join(node_prefix_in_staging(*ctx), d)),
            ),
    {
        let prefix = node_prefix_exec(ctx);
        let names: Vec<&str> = vec!["dist", "build", "out", "lib"];
        let mut r: Vec<(String, String)> = Vec::new();
        for i in 0..names.len()
            invariant
                names@.len() == 4,
                prefix@ == node_prefix_in_staging(*ctx),
                forall|k: int| 0 <= k < 4 ==> (#[trigger] names@[k])@ == output_dir_names()[k],
                pair_views(r@) == output_dir_names().take(i as int).map_values(
                    |d: Seq<char>| (path_join(ctx.source_dir@, d), path_join(node_prefix_in_staging(*ctx), d)),
                ),
        {
            let ghost prev = r@;
            r.push((join(ctx.source_dir.as_str(), names[i]), join(prefix.as_str(), names[i])));
            let ghost d = output_dir_names()[i as int];
            assert(pair_views(r@) =~= pair_views(prev).push((path_join(ctx.source_dir@, d), path_join(node_prefix_in_staging(*ctx), d))));
            assert(output_dir_names().take(i + 1) =~= output_dir_names().take(i as int).push(d));
            assert(output_dir_names().take(i + 1).map_values(
                |d: Seq<char>| (path_join(ctx.source_dir@, d), path_join(node_prefix_in_staging(*ctx), d)),
            ) =~= output_dir_names().take(i as int).map_values(
                |d: Seq<char>| (path_join(ctx.source_dir@, d), path_join(node_prefix_in_staging(*ctx), d)),
            ).push((path_join(ctx.source_dir@, d), path_join(node_prefix_in_staging(*ctx), d))));
        }
        assert(output_dir_names().take(4) =~= output_dir_names());
        r
    }

    /// The commands that `package.json` installs, as copies from the source
    /// directory into the staging prefix's `bin` directory, and whether that
    /// directory is wanted (whenever there is a `bin` field). A text that is
    /// no JSON installs nothing.
    pub fn bin_copies(ctx: &BuildSystemContext, package_json: &str) -> (r: (bool, Vec<(String, String)>))
        ensures
            match package_bins_of(package_json@) {
                Some(b) => r.0 == !(b.bin is Missing)
                    && pair_views(r.1@) == bin_copies_of(ctx.source_dir@, node_prefix_in_staging(*ctx), b),
                None => !r.0 && r.1@.len() == 0,
            },
    {
        match read_package_bins(package_json) {
            Some(b) => {
                let prefix = node_prefix_exec(ctx);
                (!matches!(b.bin, BinField::Missing), Self::plan_bin_copies(ctx.source_dir.as_str(), prefix.as_str(), &b))
            },
            None => (false, Vec::new()),
        }
    }

    /// The copies that what a `package.json` says about its commands asks for.
    pub fn plan_bin_copies(source: &str, prefix: &str, bins: &PackageBins) -> (r: Vec<(String, String)>)
        ensures
            pair_views(r@) == bin_copies_of(source@, prefix@, bins@),
    {
        let dest_bin = join(prefix, "bin");
        let mut r: Vec<(String, String)> = Vec::new();
        match &bins.bin {
            BinField::Script(s) => {
                let name = match &bins.name {
                    Some(n) => n.clone(),
                    None => owned("bin"),
                };
                r.push((join_full(source, s.as_str()), join_full(dest_bin.as_str(), name.as_str())));
                assert(pair_views(r@) =~= bin_copies_of(source@, prefix@, bins@));
            },
            BinField::Table(t) => {
                let ghost tv = t@.map_values(
                    |e: (String, Option<String>)|
                        (
                            e.0@,
                            match e.1 {
                                Some(v) => Some(v@),
                                None => None,
                            },
                        ),
                );
                for i in 0..t.len()
                    invariant
                        dest_bin@ == path_join(prefix@, "bin"@),
                        tv == t@.map_values(
                            |e: (String, Option<String>)|
                                (
                                    e.0@,
                                    match e.1 {
                                        Some(v) => Some(v@),
                                        None => None,
                                    },
                                ),
                        ),
                        pair_views(r@) == table_copies(source@, dest_bin@, tv.take(i as int)),
                {
                    let ghost tt = tv.take(i + 1);
                    assert(tt.drop_last() =~= tv.take(i as int));
                    assert(tt.last() == tv[i as int]);
                    match &t[i].1 {
                        Some(v) => {
                            let ghost prev = r@;
                            r.push((join_full(source, v.as_str()), join_full(dest_bin.as_str(), t[i].0.as_str())));
                            assert(pair_views(r@) =~= pair_views(prev).push((path_join_full(source@, v@), path_join_full(dest_bin@, t@[i as int].0@))));
                        },
                        None => {},
                    }
                }
                assert(tv.take(t@.len() as int) =~= tv);
            },
            _ => {},
        }
        r
    }

    /// The build system's name.
    pub fn name(&self) -> (r: &'static str)
        ensures
            r@ == "nodejs"@,
    {
        "nodejs"
    }
}

} // verus!
