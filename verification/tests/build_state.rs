use sps2_builder::artifact_qa::router::{profile_from_build_system, qa_level_for_profile, BuildSystemProfile, QaLevel};
use sps2_builder::environment::build_env::BuildEnvironment;
use sps2_builder::environment::sandbox::{check_path_accessibility, minimal_build_sandbox, SandboxExecutor};
use sps2_builder::environment::types::{BuildResult, IsolationLevel};

#[test]
fn isolation_levels_by_number_and_name() {
    for n in 0u8..4 {
        let level = IsolationLevel::from_u8(n).unwrap();
        assert_eq!(level.as_u8(), n);
        assert_eq!(IsolationLevel::parse_name(level.name()), Some(level));
    }
    assert_eq!(IsolationLevel::from_u8(4), None);
    assert_eq!(IsolationLevel::parse_name("  Hermetic "), Some(IsolationLevel::Hermetic));
    assert_eq!(IsolationLevel::parse_name("NONE"), Some(IsolationLevel::NoIsolation));
    assert_eq!(IsolationLevel::parse_name("strict"), None);
    assert_eq!(IsolationLevel::default(), IsolationLevel::Default);
}

#[test]
fn build_results_collect_outputs() {
    let mut r = BuildResult::new("/out/zlib.sp".to_string()).with_install_requested(true);
    r.add_sbom_file("/out/sbom.json".to_string());
    r.set_build_log("log".to_string());
    assert_eq!(r.sbom_files, vec!["/out/sbom.json".to_string()]);
    assert_eq!(r.build_log, "log");
    assert!(r.install_requested);
    assert_eq!(r.package_path, "/out/zlib.sp");
}

#[test]
fn build_environment_records() {
    let mut e = BuildEnvironment::new_with_jobs("pkg", "2.0", "/b", 2);
    e.record_build_system("cmake");
    e.record_build_system("cargo");
    e.record_build_system("cmake");
    assert_eq!(e.used_build_systems(), &vec!["cmake".to_string(), "cargo".to_string()]);
    assert!(!e.is_python_package());
    e.set_build_metadata("PYTHON_WHEEL_PATH".to_string(), "/w.whl".to_string());
    assert!(e.is_python_package());
    assert_eq!(e.get_extra_env("PYTHON_WHEEL_PATH"), Some("/w.whl".to_string()));
    assert_eq!(e.get_extra_env("JOBS"), Some("2".to_string()));
    assert_eq!(e.get_extra_env("NOPE"), None);
    e.record_fix_permissions_request(vec!["bin/a".to_string()]);
    e.record_fix_permissions_request(vec!["bin/b".to_string()]);
    assert_eq!(e.fix_permissions_request, Some(vec!["bin/a".to_string(), "bin/b".to_string()]));
}

#[test]
fn sandbox_paths() {
    let config = minimal_build_sandbox("/b/pkg", true);
    assert!(!config.allow_network);
    assert!(config.allow_spawn);
    let limits = config.resource_limits;
    assert_eq!(limits.cpu_time, Some(3600));
    assert_eq!(limits.memory, Some(4 * 1024 * 1024 * 1024));
    assert_eq!(limits.open_files, Some(1024));
    assert_eq!(limits.processes, Some(128));
    let inside = check_path_accessibility("/b/pkg/src/main.c", &config);
    assert!(inside.readable && inside.writable && inside.executable);
    let deps = check_path_accessibility("/b/pkg/deps/lib/libz.a", &config);
    assert!(deps.readable);
    let outside = check_path_accessibility("/home/me/secret", &config);
    assert!(!outside.readable && !outside.writable);
    let exec = SandboxExecutor::new(config, "/b/pkg".to_string());
    let profile = exec.sandbox_profile();
    assert_eq!(profile.name, "sps2-build-sandbox");
    assert!(profile.content.starts_with("(version 1)\n(deny default)\n"));
    assert!(profile.content.contains("/b/pkg"));
}

#[test]
fn profiles_of_single_systems() {
    assert_eq!(profile_from_build_system("cargo"), BuildSystemProfile::RustMinimal);
    assert_eq!(profile_from_build_system("go"), BuildSystemProfile::GoMedium);
    assert_eq!(profile_from_build_system("python"), BuildSystemProfile::ScriptLight);
    assert_eq!(profile_from_build_system("meson"), BuildSystemProfile::NativeFull);
    assert_eq!(qa_level_for_profile(BuildSystemProfile::NativeFull), QaLevel::Strict);
}
