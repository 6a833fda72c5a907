use sps2_builder::build_systems::cmake::parse_ctest_summary;
use sps2_builder::build_systems::{
    CMakeBuildSystem, CargoBuildSystem, GoBuildSystem, NodeJsBuildSystem, PackageManager,
    PythonBuildSystem,
};
use sps2_builder::build_systems::cargo::parse_cargo_test_summary;

#[test]
fn test_ctest_summary_parsing() {
    assert_eq!(
        parse_ctest_summary("50% tests passed, 5 tests failed out of 10"),
        Some((10, 5, 5))
    );
    assert_eq!(
        parse_ctest_summary("100% tests passed, 0 tests failed out of 20"),
        Some((20, 20, 0))
    );
    assert_eq!(parse_ctest_summary("Invalid line"), None);
}

#[test]
fn test_parse_test_output() {
    let system = GoBuildSystem::new();
    let output = r"
=== RUN   TestExample
--- PASS: TestExample (0.00s)
=== RUN   TestFailure
--- FAIL: TestFailure (0.01s)
    main_test.go:10: expected true, got false
PASS
ok      example.com/test    0.123s
";

    let (total, passed, failed, failures) = system.parse_test_output(output);
    assert_eq!(total, 2);
    assert_eq!(passed, 1);
    assert_eq!(failed, 1);
    assert_eq!(failures.len(), 1);
}

#[test]
fn go_failure_is_named_after_package_and_test() {
    let system = GoBuildSystem::new();
    let output = "ok  \texample.com/pkg\t0.1s\n=== RUN   TestX\n--- FAIL: TestX (0.00s)\n";
    let (total, passed, failed, failures) = system.parse_test_output(output);
    assert_eq!((total, passed, failed), (1, 0, 1));
    assert_eq!(failures[0].name, "example.com/pkg/TestX");
    assert_eq!(failures[0].message, "--- FAIL: TestX (0.00s)");
}

#[test]
fn go_output_without_runs_counts_one_test() {
    let system = GoBuildSystem::new();
    assert_eq!(system.parse_test_output("PASS\n").0, 1);
    assert_eq!(system.parse_test_output("PASS\n").1, 1);
    let (t, p, f, _) = system.parse_test_output("FAIL\n");
    assert_eq!((t, p, f), (1, 0, 1));
    let (t, p, f, _) = system.parse_test_output("nothing here\n");
    assert_eq!((t, p, f), (0, 0, 0));
}

#[test]
fn ctest_summary_edge_cases() {
    assert_eq!(parse_ctest_summary("90% tests passed, 1 tests failed out of 10"), Some((10, 9, 1)));
    assert_eq!(parse_ctest_summary("tests failed out of"), None);
    assert_eq!(parse_ctest_summary("x failed out of 10"), None);
}

#[test]
fn cargo_summary_counts() {
    assert_eq!(
        parse_cargo_test_summary("test result: ok. 3 passed; 1 failed; 2 ignored; 0 measured"),
        Some((6, 3, 1))
    );
    assert_eq!(parse_cargo_test_summary("test result: ok. 0 passed; 0 failed; 0 ignored"), None);
}

#[test]
fn cargo_test_output_failures() {
    let system = CargoBuildSystem::new();
    let output = "running 2 tests\n---- tests::bad stdout ----\nthread panicked\nfailures:\n\ntest result: FAILED. 1 passed; 1 failed; 0 ignored; 0 measured\n";
    let (total, passed, failed, failures) = system.parse_test_output(output);
    assert_eq!((total, passed, failed), (2, 1, 1));
    assert_eq!(failures.len(), 1);
    assert_eq!(failures[0].name, "tests::bad");
    assert_eq!(failures[0].details.as_deref(), Some("thread panicked\n"));
}

#[test]
fn pytest_summary_and_failures() {
    let system = PythonBuildSystem::new();
    let output = "FAILED tests/test_a.py::test_x - AssertionError\n==== 5 passed, 2 failed, 1 skipped in 1.23s ====\n";
    let (total, passed, failed, failures) = system.parse_pytest_output(output);
    assert_eq!((total, passed, failed), (8, 5, 2));
    assert_eq!(failures.len(), 1);
    assert_eq!(failures[0].name, "tests/test_a.py::test_x");
}

#[test]
fn jest_mocha_and_tap_outputs() {
    let system = NodeJsBuildSystem::new();
    let jest = "Tests:       1 failed, 2 passed, 3 total\n";
    let (t, p, f, _) = system.parse_test_output(jest);
    assert_eq!((t, p, f), (3, 2, 1));
    let mocha = "  4 passing (20ms)\n  1 failing\n";
    let (t, p, f, _) = system.parse_test_output(mocha);
    assert_eq!((t, p, f), (5, 4, 1));
    let tap = "TAP version 13\nok 1 - first\nnot ok 2 - second - detail\n";
    let (t, p, f, failures) = system.parse_test_output(tap);
    assert_eq!((t, p, f), (2, 1, 1));
    assert_eq!(failures[0].name, "second");
    let (t, p, f, _) = system.parse_test_output("some test error\n");
    assert_eq!((t, p, f), (1, 0, 1));
}

#[test]
fn npm_install_arguments() {
    let system = NodeJsBuildSystem::new();
    assert_eq!(
        system.get_install_command(&PackageManager::Npm, true, true),
        vec!["ci", "--offline", "--no-audit", "--no-fund"]
    );
    assert_eq!(
        system.get_install_command(&PackageManager::Yarn, false, false),
        vec!["install", "--frozen-lockfile", "--non-interactive"]
    );
    assert_eq!(PackageManager::Pnpm.command(), "pnpm");
}

#[test]
fn cmake_defaults() {
    let _ = CMakeBuildSystem::new();
}
