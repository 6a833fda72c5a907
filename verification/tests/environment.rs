use sps2_builder::config::{BuildConfig, BuilderConfig};
use sps2_builder::environment::build_env::BuildEnvironment;
use sps2_builder::environment::deps::{
    cleanup_dirs, decide_install, verify_installed_package, InstallDecision, NodeAction, ResolvedDependency,
};
use sps2_builder::environment::execution::{
    check_libtool_finish_needed, command_outcome, libtool_finish_args, normalize_output,
};
use sps2_builder::environment::hermetic::HermeticConfig;
use sps2_builder::environment::types::BuildCommandResult;
use sps2_builder::errors::BuildError;
use sps2_builder::string_map::StringMap;

const ROOT: &str = "/tmp/sps2-build-root";

fn env(name: &str) -> BuildEnvironment {
    BuildEnvironment::new_with_jobs(name, "1.0.0", ROOT, 4)
}

fn host() -> StringMap {
    let mut h = StringMap::new();
    h.insert("HOME".to_string(), "/home/me".to_string());
    h.insert("LDFLAGS".to_string(), "-L/some/bad/path".to_string());
    h.insert("PKG_CONFIG_PATH".to_string(), "/bad/pkgconfig".to_string());
    h.insert("SECRET_TOKEN".to_string(), "x".to_string());
    h
}

#[test]
fn test_build_config_creation() {
    let builder_config = BuilderConfig::default();
    let build_config = BuildConfig::new(builder_config);

    assert_eq!(build_config.max_build_time(), Some(3600));
    assert!(build_config.is_strict_validation());
    assert!(!build_config.allow_shell_expansion());
}

#[test]
fn test_cpu_count() {
    let count = BuildEnvironment::cpu_count();
    assert!(count > 0);
    assert!(count <= num_cpus::get());
}

#[test]
fn build_config_builders() {
    let c = BuildConfig::default().with_timeout(60).with_jobs(8);
    assert_eq!(c.max_build_time(), Some(60));
    assert_eq!(c.build_jobs(), Some(8));
    assert_eq!(BuildConfig::default().build_jobs(), None);
}

#[test]
fn new_environment_has_prefixes_and_base_vars() {
    let e = env("test-pkg");
    assert_eq!(e.build_prefix(), &format!("{ROOT}/test-pkg/1.0.0"));
    assert_eq!(e.staging_dir(), &format!("{ROOT}/test-pkg/1.0.0/stage"));
    assert_eq!(e.deps_prefix(), format!("{ROOT}/test-pkg/1.0.0/deps"));
    assert_eq!(e.env_vars().get("PREFIX"), Some(&"/opt/pm/live".to_string()));
    assert_eq!(e.env_vars().get("JOBS"), Some(&"4".to_string()));
    assert_eq!(e.get_build_prefix(), "/test-pkg-1.0.0");
}

#[test]
fn clean_environment_drops_host_flags() {
    let mut e = env("clean-test");
    e.setup_environment_with(&host(), 4, 2, false);
    let vars = e.env_vars();
    assert_eq!(vars.get("LDFLAGS"), Some(&"-L/opt/pm/live/lib".to_string()));
    assert!(!vars.contains_key("PKG_CONFIG_PATH"));
    assert!(!vars.contains_key("SECRET_TOKEN"));
    assert_eq!(vars.get("HOME"), Some(&"/home/me".to_string()));
    assert_eq!(vars.get("MAKEFLAGS"), Some(&"-j2".to_string()));
    assert_eq!(vars.get("BUILD_PREFIX"), Some(&"/clean-test-1.0.0".to_string()));

    e.setup_build_deps_environment();
    assert_eq!(
        e.env_vars().get("PKG_CONFIG_PATH"),
        Some(&"/opt/pm/live/lib/pkgconfig".to_string())
    );
}

#[test]
fn macos_link_flags_pad_headers() {
    let mut e = env("mac");
    e.setup_environment_with(&StringMap::new(), 1, 1, true);
    assert_eq!(
        e.env_vars().get("LDFLAGS"),
        Some(&"-L/opt/pm/live/lib -headerpad_max_install_names".to_string())
    );
}

#[test]
fn default_compiler_flags_go_before_existing() {
    let mut e = env("flags");
    e.setup_environment_with(&StringMap::new(), 1, 1, true);
    e.apply_default_compiler_flags(true, true);
    let vars = e.env_vars();
    assert_eq!(
        vars.get("CFLAGS"),
        Some(&"-O2 -pipe -fstack-protector-strong -mcpu=apple-m1 -mtune=native -I/opt/pm/live/include".to_string())
    );
    assert_eq!(
        vars.get("CXXFLAGS"),
        Some(&"-O2 -pipe -fstack-protector-strong -mcpu=apple-m1 -mtune=native".to_string())
    );
    assert_eq!(vars.get("ARCHFLAGS"), Some(&"-arch arm64".to_string()));

    let mut linux = env("flags");
    linux.apply_default_compiler_flags(false, false);
    assert_eq!(
        linux.env_vars().get("CFLAGS"),
        Some(&"-O2 -pipe -fstack-protector-strong".to_string())
    );
    assert!(!linux.env_vars().contains_key("ARCHFLAGS"));
}

#[test]
fn summary_holds_prefixes_and_set_variables() {
    let mut e = env("isolated-test");
    e.setup_environment_with(&StringMap::new(), 1, 1, false);
    let summary = e.environment_summary();
    assert_eq!(summary.get("package_name"), Some(&"isolated-test".to_string()));
    assert_eq!(summary.get("staging_dir"), Some(&format!("{ROOT}/isolated-test/1.0.0/stage")));
    assert!(summary.contains_key("PATH"));
    assert!(summary.contains_key("CFLAGS"));
    assert!(!summary.contains_key("PKG_CONFIG_PATH"));
}

#[test]
fn basic_isolation_errors_name_the_missing_piece() {
    let e = env("iso");
    assert_eq!(
        e.verify_basic_isolation(false, true),
        Err(BuildError::Failed { message: format!("Build prefix does not exist: {ROOT}/iso/1.0.0") })
    );
    assert_eq!(
        e.verify_basic_isolation(true, false),
        Err(BuildError::Failed { message: format!("Staging directory does not exist: {ROOT}/iso/1.0.0/stage") })
    );
    assert_eq!(
        e.verify_basic_isolation(true, true),
        Err(BuildError::Failed { message: "PATH environment variable not set".to_string() })
    );
}

#[test]
fn sanitization_rejects_dangerous_variables() {
    let mut e = env("iso");
    e.setup_environment_with(&StringMap::new(), 1, 1, false);
    e.set_env_var("LD_PRELOAD".to_string(), "/evil.so".to_string()).unwrap();
    assert_eq!(
        e.verify_environment_sanitization("/placeholder"),
        Err(BuildError::SandboxViolation {
            message: "Dangerous environment variable LD_PRELOAD is set".to_string()
        })
    );
}

#[test]
fn network_isolation_is_seen_after_it_is_applied() {
    let mut e = env("net");
    assert!(!e.verify_network_isolation());
    assert_eq!(e.apply_network_isolation(), Ok(()));
    assert!(e.verify_network_isolation());
    assert_eq!(e.env_vars().get("NO_PROXY"), Some(&"localhost,127.0.0.1,::1".to_string()));
}

#[test]
fn hermetic_isolation_passes_its_own_check() {
    let mut e = env("herm");
    let config = HermeticConfig::default();
    assert_eq!(e.apply_hermetic_isolation(&host(), &config, 3), Ok(()));
    let vars = e.env_vars();
    assert_eq!(vars.get("HOME"), Some(&format!("{ROOT}/herm/1.0.0/home")));
    assert_eq!(vars.get("TMPDIR"), Some(&format!("{ROOT}/herm/1.0.0/tmp")));
    assert_eq!(vars.get("JOBS"), Some(&"3".to_string()));
    assert_eq!(vars.get("LC_ALL"), Some(&"C".to_string()));
    assert!(!vars.contains_key("SECRET_TOKEN"));
    assert!(!vars.contains_key("PKG_CONFIG_PATH"));
    // The proxy variables that cut the network off are not on the allowed list.
    assert_eq!(
        e.verify_hermetic_isolation(&config),
        Err(BuildError::SandboxViolation { message: "Unexpected environment variable: http_proxy".to_string() })
    );

    let mut open = env("herm");
    let mut networked = HermeticConfig::default();
    networked.allow_network = true;
    assert_eq!(open.apply_hermetic_isolation(&host(), &networked, 3), Ok(()));
    assert_eq!(open.verify_hermetic_isolation(&networked), Ok(()));
}

#[test]
fn hermetic_check_finds_stray_variable() {
    let mut e = env("herm");
    let config = HermeticConfig::default();
    e.apply_hermetic_isolation(&StringMap::new(), &config, 1).unwrap();
    e.set_env_var("STRAY".to_string(), "1".to_string()).unwrap();
    assert!(matches!(
        e.verify_hermetic_isolation(&config),
        Err(BuildError::SandboxViolation { .. })
    ));
}

#[test]
fn output_is_normalized_to_lines() {
    assert_eq!(normalize_output("a\r\nb\n"), "a\nb");
    assert_eq!(normalize_output(""), "");
}

#[test]
fn failed_command_is_an_error_unless_allowed() {
    let result = BuildCommandResult {
        success: false,
        exit_code: Some(2),
        stdout: String::new(),
        stderr: "boom".to_string(),
    };
    let args = vec!["-j".to_string(), "4".to_string()];
    assert_eq!(
        command_outcome("make", &args, &result, false),
        Err(BuildError::CompileFailed { message: "make -j 4 failed with exit code Some(2): boom".to_string() })
    );
    assert_eq!(command_outcome("make", &args, &result, true), Ok(()));
}

#[test]
fn libtool_directories_found_once() {
    let result = BuildCommandResult {
        success: true,
        exit_code: Some(0),
        stdout: "remember to run `libtool --finish /opt/pm/live/lib'\nother".to_string(),
        stderr: "remember to run `libtool --finish /opt/pm/live/lib'".to_string(),
    };
    assert_eq!(check_libtool_finish_needed(&result), vec!["/opt/pm/live/lib".to_string()]);
    assert_eq!(libtool_finish_args("/x"), vec!["--finish".to_string(), "/x".to_string()]);
}

#[test]
fn install_decisions() {
    let local = ResolvedDependency {
        name: "zlib".to_string(),
        version: "1.3".to_string(),
        action: NodeAction::Local,
        path: None,
        url: None,
    };
    assert!(matches!(decide_install(&local, false, false, false), InstallDecision::VerifyInstalled));
    let remote = ResolvedDependency {
        name: "zlib".to_string(),
        version: "1.3".to_string(),
        action: NodeAction::Download,
        path: None,
        url: Some("https://x/zlib.sp".to_string()),
    };
    match decide_install(&remote, true, true, true) {
        InstallDecision::Download { url, file_name } => {
            assert_eq!(url, "https://x/zlib.sp");
            assert_eq!(file_name, "zlib-1.3.sp");
        }
        other => panic!("unexpected {other:?}"),
    }
    match decide_install(&remote, true, false, true) {
        InstallDecision::Fail(BuildError::MissingBuildDep { name }) => {
            assert_eq!(name, "package store not configured")
        }
        other => panic!("unexpected {other:?}"),
    }
}

#[test]
fn installed_package_check() {
    let installed = vec![("zlib".to_string(), "1.3".to_string())];
    assert_eq!(verify_installed_package(&installed, "zlib", "1.3"), Ok(()));
    assert_eq!(
        verify_installed_package(&installed, "zlib", "1.2"),
        Err(BuildError::MissingBuildDep { name: "zlib 1.2 is not installed".to_string() })
    );
    assert_eq!(
        cleanup_dirs("/b"),
        vec!["/b/src".to_string(), "/b/build".to_string(), "/b/tmp".to_string()]
    );
}
