//! Python build system (PEP 517/518).
use crate::build_systems::common::{
    failure_views, make_failure, owned, plain_failure, tally, tally_words, BuildSystemConfig,
    TestFailure, TestFailureView,
};
use crate::text::{
    contains, contains_str, find_exec, first_occ, lemma_first_occ_in_bounds, lines, skip_chars, split_lines, split_words,
    starts_with, starts_with_str, take_chars, to_chars, views, words,
};
use crate::build_systems::context::BuildSystemContext;
use crate::build_systems::go::contains_arg;
use crate::errors::BuildError;
use crate::paths::{join, path_join};
use crate::string_map::StringMap;
use crate::text::{
    concat, ends_with, ends_with_str, eq_str, from_chars, join_strings, join_with, split_char, split_on,
    strip_start_char, string_views, trim, trim_char, trim_char_exec, trim_exec,
};
use vstd::prelude::*;

verus! {

/// Python build system with PEP 517/518 compliance
pub struct PythonBuildSystem {
    config: BuildSystemConfig,
}

/// What the pytest-output parser has gathered after some lines.
pub struct PytestScan {
    pub passed: usize,
    pub failed: usize,
    pub skipped: usize,
    pub failures: Seq<TestFailureView>,
}

/// The test named by a `FAILED <test> - <reason>` line: the text before the
/// first ` - `, or all of it.
pub open spec fn pytest_failed_name(info: Seq<char>) -> Seq<char> {
    if contains(info, " - "@) {
        info.take(first_occ(info, " - "@))
    } else {
        info
    }
}

/// One line of pytest output.
pub open spec fn pytest_step(st: PytestScan, line: Seq<char>) -> PytestScan {
    if contains(line, "passed"@) || contains(line, "failed"@) || contains(line, "skipped"@) {
        let ws = words(line);
        let c = tally(
            (st.passed, st.failed, st.skipped),
            ws,
            ws.len(),
            ("passed"@, "failed"@, "skipped"@),
            true,
        );
        PytestScan { passed: c.0, failed: c.1, skipped: c.2, ..st }
    } else if starts_with(line, "FAILED "@) {
        PytestScan {
            failures: st.failures.push(plain_failure(pytest_failed_name(line.skip(7)), line)),
            ..st
        }
    } else {
        st
    }
}

/// A pytest summary line `<p> passed, <f> failed, <s> skipped` sets the
/// passed, failed and skipped counts to those numbers and records no
/// failure.
pub proof fn lemma_pytest_summary_line(st: PytestScan, line: Seq<char>, p: usize, f: usize, s: usize)
    requires
        contains(line, "passed"@),
        words(line) == seq![
            crate::build_systems::common::count_word(p),
            "passed,"@,
            crate::build_systems::common::count_word(f),
            "failed,"@,
            crate::build_systems::common::count_word(s),
            "skipped"@,
        ],
    ensures
        pytest_step(st, line).passed == p,
        pytest_step(st, line).failed == f,
        pytest_step(st, line).skipped == s,
        pytest_step(st, line).failures == st.failures,
{
    reveal_strlit("passed,");
    reveal_strlit("failed,");
    reveal_strlit("passed");
    reveal_strlit("failed");
    reveal_strlit("skipped");
    let ws = words(line);
    crate::text::lemma_parse_decimal(p);
    crate::text::lemma_parse_decimal(f);
    crate::text::lemma_parse_decimal(s);
    crate::build_systems::common::lemma_not_a_count(ws[1]);
    crate::build_systems::common::lemma_not_a_count(ws[3]);
    crate::build_systems::common::lemma_not_a_count(ws[5]);
    assert(ws[1] == "passed"@.push(','));
    assert(ws[3] != "passed"@ && ws[3] != "passed"@.push(','));
    assert(ws[3] == "failed"@.push(','));
    assert(ws[5] != "passed"@ && ws[5] != "passed"@.push(','));
    assert(ws[5] != "failed"@ && ws[5] != "failed"@.push(','));
    reveal_with_fuel(crate::build_systems::common::tally, 7);
}

/// The parser's state after the given lines.
pub open spec fn pytest_scan(ls: Seq<Seq<char>>) -> PytestScan
    decreases ls.len(),
{
    if ls.len() == 0 {
        PytestScan { passed: 0, failed: 0, skipped: 0, failures: seq![] }
    } else {
        pytest_step(pytest_scan(ls.drop_last()), ls.last())
    }
}

/// The counts that pytest's output reports add up without overflow.
pub open spec fn pytest_output_fits(output: Seq<char>) -> bool {
    let st = pytest_scan(lines(output));
    st.passed + st.failed + st.skipped <= usize::MAX
}

impl PythonBuildSystem {
    /// Create a new Python build system instance
    pub fn new() -> (s: Self)
        ensures
            s.configuration().supports_out_of_source,
            !s.configuration().supports_parallel_builds,
            s.configuration().supports_incremental_builds,
            s.configuration().default_configure_args@.len() == 0,
            s.configuration().default_build_args@.len() == 0,
            s.configuration().env_prefix matches Some(p) && p@ == "PYTHON_"@,
            s.configuration().watch_patterns@.len() == 5,
            s.configuration().watch_patterns@[0]@ == "setup.py"@,
            s.configuration().watch_patterns@[1]@ == "setup.cfg"@,
            s.configuration().watch_patterns@[2]@ == "pyproject.toml"@,
            s.configuration().watch_patterns@[3]@ == "requirements.txt"@,
            s.configuration().watch_patterns@[4]@ == "**/*.py"@,
    {
        let mut watch = Vec::new();
        watch.push(owned("setup.py"));
        watch.push(owned("setup.cfg"));
        watch.push(owned("pyproject.toml"));
        watch.push(owned("requirements.txt"));
        watch.push(owned("**/*.py"));
        PythonBuildSystem {
            config: BuildSystemConfig {
                supports_out_of_source: true,
                supports_parallel_builds: false,
                supports_incremental_builds: true,
                default_configure_args: Vec::new(),
                default_build_args: Vec::new(),
                env_prefix: Some(owned("PYTHON_")),
                watch_patterns: watch,
            },
        }
    }

    /// The configuration this instance was made with.
    pub closed spec fn configuration(&self) -> BuildSystemConfig {
        self.config
    }

    /// Parse pytest output: the counts of summary lines such as
    /// `5 passed, 2 failed, 1 skipped in 1.23s` (total = passed + failed +
    /// skipped), and one failure for each `FAILED <test> - <reason>` line.
    pub fn parse_pytest_output(&self, output: &str) -> (r: (usize, usize, usize, Vec<TestFailure>))
        requires
            pytest_output_fits(output@),
        ensures
            ({
                let st = pytest_scan(lines(output@));
                &&& r.0 == st.passed + st.failed + st.skipped
                &&& r.1 == st.passed
                &&& r.2 == st.failed
                &&& failure_views(r.3@) == st.failures
            }),
    {
        let text = to_chars(output);
        let ls = split_lines(text.as_slice());
        let mut passed: usize = 0;
        let mut failed: usize = 0;
        let mut skipped: usize = 0;
        let mut failures: Vec<TestFailure> = Vec::new();
        let sep = to_chars(" - ");
        proof {
            reveal_strlit(" - ");
        }
        for i in 0..ls.len()
            invariant
                views(ls@) == lines(text@),
                sep@ == " - "@,
                ({
                    let st = pytest_scan(views(ls@).take(i as int));
                    &&& passed == st.passed
                    &&& failed == st.failed
                    &&& skipped == st.skipped
                    &&& failure_views(failures@) == st.failures
                }),
        {
            let line = &ls[i];
            proof {
                assert(views(ls@).take(i + 1).drop_last() == views(ls@).take(i as int));
            }
            if contains_str(line.as_slice(), "passed") || contains_str(line.as_slice(), "failed")
                || contains_str(line.as_slice(), "skipped")
            {
                let ws = split_words(line.as_slice());
                let c = tally_words(&ws, (passed, failed, skipped), "passed", "failed", "skipped", true);
                passed = c.0;
                failed = c.1;
                skipped = c.2;
            } else if starts_with_str(line.as_slice(), "FAILED ") {
                proof {
                    reveal_strlit("FAILED ");
                }
                let info = skip_chars(line.as_slice(), 7);
                let name = match find_exec(info.as_slice(), sep.as_slice()) {
                    Some(k) => {
                        proof {
                            lemma_first_occ_in_bounds(info@, " - "@);
                        }
                        take_chars(info.as_slice(), k)
                    },
                    None => info,
                };
                let f = make_failure(name.as_slice(), line.as_slice());
                failures.push(f);
                assert(failure_views(failures@) =~= pytest_scan(views(ls@).take(i as int)).failures.push(
                    plain_failure(name@, line@),
                ));
            }
        }
        assert(views(ls@).take(ls@.len() as int) == views(ls@));
        (passed + failed + skipped, passed, failed, failures)
    }
}

/// Where a Python build installs in the staging directory: the package's
/// own prefix, without its leading `/`, under the staging directory.
pub open spec fn python_prefix_in_staging(ctx: BuildSystemContext) -> Seq<char> {
    path_join(ctx.env.staging_dir@, strip_start_char("/"@ + ctx.env.name@ + "-"@ + ctx.env.version@, '/'))
}

/// The arguments of `pip install`.
pub open spec fn pip_args_of(ctx: BuildSystemContext, user: Seq<Seq<char>>) -> Seq<Seq<char>> {
    let a0 = seq!["install"@];
    let a1 = if !ctx.network_allowed {
        a0 + seq!["--no-index"@, "--find-links"@, path_join(ctx.source_dir@, "vendor"@)]
    } else {
        a0
    };
    let a2 = a1 + seq!["--prefix"@, python_prefix_in_staging(ctx)];
    let a3 = if !user.contains("--no-deps"@) { a2.push("--no-deps"@) } else { a2 };
    a3 + user
}

/// The variables a Python build adds.
pub open spec fn python_env_of(ctx: BuildSystemContext, venv_exists: bool) -> Map<Seq<char>, Seq<char>> {
    let m = Map::<Seq<char>, Seq<char>>::empty()
        .insert("PYTHONPATH"@, path_join(python_prefix_in_staging(ctx), "lib/python*/site-packages"@))
        .insert("PYTHONNOUSERSITE"@, "1"@)
        .insert("PIP_DISABLE_PIP_VERSION_CHECK"@, "1"@)
        .insert("PIP_NO_WARN_SCRIPT_LOCATION"@, "1"@);
    if venv_exists {
        m.insert("VIRTUAL_ENV"@, path_join(ctx.build_dir@, "venv"@))
    } else {
        m
    }
}

/// What the entry-point reader has seen: whether it is in the
/// `[console_scripts]` section, and the scripts found so far.
pub open spec fn entry_points_step(st: (bool, Map<Seq<char>, Seq<char>>), line: Seq<char>) -> (bool, Map<Seq<char>, Seq<char>>) {
    let t = trim(line);
    if t == "[console_scripts]"@ {
        (true, st.1)
    } else if starts_with(t, "["@) {
        (false, st.1)
    } else if st.0 && contains(t, "="@) {
        let i = first_occ(t, "="@);
        (st.0, st.1.insert(trim(t.take(i)), trim(t.skip(i + 1))))
    } else {
        st
    }
}

/// The reader's state after the given lines.
pub open spec fn entry_points_scan(ls: Seq<Seq<char>>) -> (bool, Map<Seq<char>, Seq<char>>)
    decreases ls.len(),
{
    if ls.len() == 0 {
        (false, Map::empty())
    } else {
        entry_points_step(entry_points_scan(ls.drop_last()), ls.last())
    }
}

/// The console scripts that an `entry_points.txt` declares: each
/// `name = module:function` line of its `[console_scripts]` section.
pub open spec fn entry_points_of(contents: Seq<char>) -> Map<Seq<char>, Seq<char>> {
    entry_points_scan(lines(contents)).1
}

/// The first line that mentions `requires-python` and has a value after an
/// `=`, from `from` on.
pub open spec fn requires_python_from(ls: Seq<Seq<char>>, from: int) -> Option<Seq<char>>
    decreases ls.len() - from,
{
    if from >= ls.len() || from < 0 {
        None
    } else if contains(ls[from], "requires-python"@) && split_char(ls[from], '=').len() > 1 {
        Some(trim_char(trim_char(trim(split_char(ls[from], '=')[1]), '"'), '\''))
    } else {
        requires_python_from(ls, from + 1)
    }
}

/// The Python requirement that a `pyproject.toml` gives: the text between
/// the first and second `=` of the first `requires-python` line, trimmed of
/// spaces and quotes, else `>=3.8`.
pub open spec fn requires_python_of(content: Seq<char>) -> Seq<char> {
    match requires_python_from(lines(content), 0) {
        Some(v) => v,
        None => ">=3.8"@,
    }
}

/// A script with a Python shebang rewritten to `#!/usr/bin/env python3`,
/// or none where its first line is no Python shebang.
pub open spec fn fixed_shebang_of(content: Seq<char>) -> Option<Seq<char>> {
    let ls = lines(content);
    if starts_with(content, "#!"@) && ls.len() > 0 && contains(ls[0], "python"@) {
        Some("#!/usr/bin/env python3\n"@ + join_with(ls.skip(1), "\n"@))
    } else {
        None
    }
}

fn prefix_in_staging_exec(ctx: &BuildSystemContext) -> (r: String)
    ensures
        r@ == python_prefix_in_staging(*ctx),
{
    let bp = ctx.env.get_build_prefix();
    let t = crate::text::strip_start_char_exec(to_chars(bp.as_str()).as_slice(), '/');
    join(ctx.env.staging_dir.as_str(), from_chars(t.as_slice()).as_str())
}

impl PythonBuildSystem {
    /// The arguments of `pip install`: offline from the vendor directory
    /// without network, into the package's prefix in the staging directory,
    /// without dependencies unless the user says so, then the user's arguments.
    pub fn get_pip_args(&self, ctx: &BuildSystemContext, user_args: &[String]) -> (r: Vec<String>)
        ensures
            string_views(r@) == pip_args_of(*ctx, string_views(user_args@)),
    {
        let ghost user = string_views(user_args@);
        let mut args: Vec<String> = Vec::new();
        args.push(owned("install"));
        if !ctx.network_allowed {
            args.push(owned("--no-index"));
            args.push(owned("--find-links"));
            args.push(join(ctx.source_dir.as_str(), "vendor"));
        }
        args.push(owned("--prefix"));
        args.push(prefix_in_staging_exec(ctx));
        if !contains_arg(user_args, "--no-deps") {
            args.push(owned("--no-deps"));
        }
        let ghost head = string_views(args@);
        for i in 0..user_args.len()
            invariant
                string_views(args@) == head + user.take(i as int),
                user == string_views(user_args@),
        {
            let ghost prev = args@;
            args.push(user_args[i].clone());
            assert(string_views(args@) =~= string_views(prev).push(user_args@[i as int]@));
            assert(user.take(i + 1) =~= user.take(i as int).push(user_args@[i as int]@));
        }
        assert(user.take(user.len() as int) =~= user);
        assert(string_views(args@) =~= pip_args_of(*ctx, user));
        args
    }

    /// The variables a Python build adds: the site packages of its staging
    /// prefix, isolation from user site packages, quiet pip, and the virtual
    /// environment where one was made.
    pub fn get_env_vars(&self, ctx: &BuildSystemContext, venv_exists: bool) -> (r: StringMap)
        ensures
            r.wf(),
            r@ == python_env_of(*ctx, venv_exists),
    {
        let mut vars = StringMap::new();
        let p = prefix_in_staging_exec(ctx);
        vars.insert(owned("PYTHONPATH"), join(p.as_str(), "lib/python*/site-packages"));
        vars.insert(owned("PYTHONNOUSERSITE"), owned("1"));
        vars.insert(owned("PIP_DISABLE_PIP_VERSION_CHECK"), owned("1"));
        vars.insert(owned("PIP_NO_WARN_SCRIPT_LOCATION"), owned("1"));
        if venv_exists {
            vars.insert(owned("VIRTUAL_ENV"), join(ctx.build_dir.as_str(), "venv"));
        }
        vars
    }

    /// The build system's name.
    pub fn name(&self) -> (r: &'static str)
        ensures
            r@ == "python"@,
    {
        "python"
    }
}

/// The console scripts of a wheel's `entry_points.txt`.
pub fn parse_entry_points(contents: &str) -> (r: StringMap)
    ensures
        r.wf(),
        r@ == entry_points_of(contents@),
{
    let ls = split_lines(to_chars(contents).as_slice());
    let mut in_scripts = false;
    let mut m = StringMap::new();
    for i in 0..ls.len()
        invariant
            m.wf(),
            views(ls@) == lines(contents@),
            (in_scripts, m@) == entry_points_scan(views(ls@).take(i as int)),
    {
        let ghost t = views(ls@).take(i + 1);
        assert(t.drop_last() =~= views(ls@).take(i as int));
        assert(t.last() == ls@[i as int]@);
        let tr = trim_exec(ls[i].as_slice());
        if crate::text::eq_str(tr.as_slice(), "[console_scripts]") {
            in_scripts = true;
        } else if starts_with_str(tr.as_slice(), "[") {
            in_scripts = false;
        } else if in_scripts && contains_str(tr.as_slice(), "=") {
            let eq = to_chars("=");
            match find_exec(tr.as_slice(), eq.as_slice()) {
                Some(k) => {
                    proof {
                        reveal_strlit("=");
                        lemma_first_occ_in_bounds(tr@, eq@);
                    }
                    let n = tr.len();
                    assert(k + 1 <= n);
                    let name = trim_exec(take_chars(tr.as_slice(), k).as_slice());
                    let value = trim_exec(skip_chars(tr.as_slice(), k + 1).as_slice());
                    m.insert(from_chars(name.as_slice()), from_chars(value.as_slice()));
                },
                None => {},
            }
        }
    }
    assert(views(ls@).take(ls@.len() as int) =~= views(ls@));
    m
}

/// The Python requirement of a `pyproject.toml`.
pub fn parse_requires_python(content: &str) -> (r: String)
    ensures
        r@ == requires_python_of(content@),
{
    let ls = split_lines(to_chars(content).as_slice());
    let mut i: usize = 0;
    while i < ls.len()
        invariant
            i <= ls@.len(),
            views(ls@) == lines(content@),
            requires_python_from(views(ls@), 0) == requires_python_from(views(ls@), i as int),
        decreases ls@.len() - i,
    {
        if contains_str(ls[i].as_slice(), "requires-python") {
            let parts = split_on(ls[i].as_slice(), '=');
            if parts.len() > 1 {
                let v = trim_exec(parts[1].as_slice());
                let v2 = trim_char_exec(v.as_slice(), '"');
                let v3 = trim_char_exec(v2.as_slice(), '\'');
                return from_chars(v3.as_slice());
            }
        }
        i = i + 1;
    }
    owned(">=3.8")
}

/// A script's text with a Python shebang rewritten, or none where it has none.
pub fn fix_shebang(content: &str) -> (r: Option<String>)
    ensures
        match r {
            Some(t) => fixed_shebang_of(content@) == Some(t@),
            None => fixed_shebang_of(content@) is None,
        },
{
    let cv = to_chars(content);
    let ls = split_lines(cv.as_slice());
    if starts_with_str(cv.as_slice(), "#!") && ls.len() > 0 && contains_str(ls[0].as_slice(), "python") {
        let mut rest: Vec<String> = Vec::new();
        let mut i: usize = 1;
        while i < ls.len()
            invariant
                1 <= i <= ls@.len(),
                string_views(rest@) == views(ls@).subrange(1, i as int),
            decreases ls@.len() - i,
        {
            let ghost prev = rest@;
            rest.push(from_chars(ls[i].as_slice()));
            assert(string_views(rest@) =~= string_views(prev).push(ls@[i as int]@));
            assert(views(ls@).subrange(1, i + 1) =~= views(ls@).subrange(1, i as int).push(ls@[i as int]@));
            i = i + 1;
        }
        assert(views(ls@).subrange(1, ls@.len() as int) =~= views(ls@).skip(1));
        let body = join_strings(&rest, "\n");
        Some(concat("#!/usr/bin/env python3\n", body.as_str()))
    } else {
        None
    }
}

/// Whether a directory name is that of installed package metadata.
pub fn is_dist_info_dir(name: &str) -> (r: bool)
    ensures
        r == ends_with(name@, ".dist-info"@),
{
    ends_with_str(to_chars(name).as_slice(), ".dist-info")
}

/// The build backends a Python project can use.
#[derive(Clone, Copy, Debug, PartialEq, Eq, Structural)]
pub enum BuildBackend {
    /// Legacy `setup.py`
    SetupPy,
    /// Setuptools through `pyproject.toml`
    Setuptools,
    /// Poetry
    Poetry,
    /// Flit
    Flit,
    /// Hatch or Hatchling
    Hatch,
    /// PDM
    Pdm,
    /// Maturin, for Rust extensions
    Maturin,
    /// Another PEP 517 backend
    Pep517,
}

/// The backend a `pyproject.toml` with a `[build-system]` table names: the
/// first of the known names that its text mentions, else a generic one.
pub open spec fn backend_named_in(content: Seq<char>) -> BuildBackend {
    if contains(content, "setuptools"@) {
        BuildBackend::Setuptools
    } else if contains(content, "poetry"@) {
        BuildBackend::Poetry
    } else if contains(content, "flit"@) {
        BuildBackend::Flit
    } else if contains(content, "hatchling"@) || contains(content, "hatch"@) {
        BuildBackend::Hatch
    } else if contains(content, "pdm"@) {
        BuildBackend::Pdm
    } else if contains(content, "maturin"@) {
        BuildBackend::Maturin
    } else {
        BuildBackend::Pep517
    }
}

/// The backend of a project, from its `pyproject.toml` (if it has one) and
/// whether it has a `setup.py`: the one a `[build-system]` table names, else
/// `setup.py`; an error where it has neither.
pub fn detect_build_backend(pyproject: Option<&str>, has_setup_py: bool) -> (r: Result<BuildBackend, BuildError>)
    ensures
        match pyproject {
            Some(c) if contains(c@, "[build-system]"@) => r == Ok::<BuildBackend, BuildError>(backend_named_in(c@)),
            _ => if has_setup_py {
                r == Ok::<BuildBackend, BuildError>(BuildBackend::SetupPy)
            } else {
                r matches Err(BuildError::ConfigureFailed { message }) && message@ == "No Python build configuration found"@
            },
        },
{
    match pyproject {
        Some(c) => {
            let v = to_chars(c);
            let t = v.as_slice();
            if contains_str(t, "[build-system]") {
                return if contains_str(t, "setuptools") {
                    Ok(BuildBackend::Setuptools)
                } else if contains_str(t, "poetry") {
                    Ok(BuildBackend::Poetry)
                } else if contains_str(t, "flit") {
                    Ok(BuildBackend::Flit)
                } else if contains_str(t, "hatchling") || contains_str(t, "hatch") {
                    Ok(BuildBackend::Hatch)
                } else if contains_str(t, "pdm") {
                    Ok(BuildBackend::Pdm)
                } else if contains_str(t, "maturin") {
                    Ok(BuildBackend::Maturin)
                } else {
                    Ok(BuildBackend::Pep517)
                };
            }
        },
        None => {},
    }
    if has_setup_py {
        Ok(BuildBackend::SetupPy)
    } else {
        Err(BuildError::ConfigureFailed { message: owned("No Python build configuration found") })
    }
}

/// The first wheel among the entries of a directory, in the order listed.
pub fn find_wheel(entries: &Vec<String>) -> (r: Result<String, BuildError>)
    ensures
        match r {
            Ok(w) => exists|i: int| 0 <= i < entries@.len() && entries@[i] == w
                && crate::paths::extension_of(w@) == Some("whl"@)
                && forall|j: int| 0 <= j < i ==> crate::paths::extension_of(#[trigger] entries@[j]@) != Some("whl"@),
            Err(e) => (forall|i: int| 0 <= i < entries@.len() ==> crate::paths::extension_of(#[trigger] entries@[i]@) != Some("whl"@))
                && (e matches BuildError::CompilationFailed { message } && message@ == "No wheel file found after build"@),
        },
{
    for i in 0..entries.len()
        invariant
            forall|j: int| 0 <= j < i ==> crate::paths::extension_of(#[trigger] entries@[j]@) != Some("whl"@),
    {
        let is_wheel = match crate::paths::extension(entries[i].as_str()) {
            Some(e) => eq_str(e.as_slice(), "whl"),
            None => false,
        };
        if is_wheel {
            return Ok(entries[i].clone());
        }
    }
    Err(BuildError::CompilationFailed { message: owned("No wheel file found after build") })
}

/// The test runner and its arguments: pytest, verbose with short
/// tracebacks and a worker per job where there are several, when it is
/// installed; else the standard library's test discovery.
pub open spec fn python_test_command(pytest_available: bool, jobs: usize) -> (Seq<char>, Seq<Seq<char>>) {
    if pytest_available {
        let head = seq!["-v"@, "--tb=short"@];
        ("pytest"@, if jobs > 1 { head + seq!["-n"@, crate::text::decimal(jobs as nat)] } else { head })
    } else {
        ("python3"@, seq!["-m"@, "unittest"@, "discover"@])
    }
}

impl PythonBuildSystem {
    /// The program the tests run with, and its arguments.
    pub fn test_command(&self, ctx: &BuildSystemContext, pytest_available: bool) -> (r: (&'static str, Vec<String>))
        ensures
            (r.0@, string_views(r.1@)) == python_test_command(pytest_available, ctx.jobs),
    {
        let mut args: Vec<String> = Vec::new();
        if pytest_available {
            args.push(owned("-v"));
            args.push(owned("--tb=short"));
            if ctx.jobs > 1 {
                args.push(owned("-n"));
                args.push(crate::text::usize_to_string(ctx.jobs));
            }
            assert(string_views(args@) =~= python_test_command(pytest_available, ctx.jobs).1);
            ("pytest", args)
        } else {
            args.push(owned("-m"));
            args.push(owned("unittest"));
            args.push(owned("discover"));
            assert(string_views(args@) =~= python_test_command(pytest_available, ctx.jobs).1);
            ("python3", args)
        }
    }

    /// The results of a unittest run, which reports only whether it
    /// succeeded: one test, and where it failed, a failure carrying the output.
    pub fn unittest_results(&self, succeeded: bool, output: &str) -> (r: (usize, usize, usize, Vec<TestFailure>))
        ensures
            succeeded ==> r.0 == 1 && r.1 == 1 && r.2 == 0 && r.3@.len() == 0,
            !succeeded ==> r.0 == 1 && r.1 == 0 && r.2 == 1 && failure_views(r.3@) == seq![
                TestFailureView { name: "unittest"@, message: "Tests failed"@, details: Some(output@) },
            ],
    {
        let mut failures: Vec<TestFailure> = Vec::new();
        if succeeded {
            (1, 1, 0, failures)
        } else {
            failures.push(TestFailure { name: owned("unittest"), message: owned("Tests failed"), details: Some(owned(output)) });
            assert(failure_views(failures@) =~= seq![
                TestFailureView { name: "unittest"@, message: "Tests failed"@, details: Some(output@) },
            ]);
            (1, 0, 1, failures)
        }
    }
}

} // verus!
