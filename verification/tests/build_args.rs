use sps2_builder::build_systems::cmake::{ctest_args, parse_ctest_output};
use sps2_builder::build_systems::common::{single_outcome, skipped_tests};
use sps2_builder::build_systems::autotools::needs_autoreconf;
use sps2_builder::build_systems::cargo::is_workspace_manifest;
use sps2_builder::build_systems::go::module_name;
use sps2_builder::build_systems::python::{detect_build_backend, find_wheel, BuildBackend};
use sps2_builder::build_systems::detect::{detect_build_system, SourceMarkers};
use sps2_builder::build_systems::autotools::AutotoolsBuildSystem;
use sps2_builder::build_systems::context::{BuildSystemContext, CacheConfig, CompilerCacheType};
use sps2_builder::build_systems::lockfile::{LockfilePlan, LockfileStage, LockfileStep};
use sps2_builder::build_systems::nodejs::{BinField, NodeJsBuildSystem, PackageBins};
use sps2_builder::build_systems::python::{fix_shebang, parse_entry_points, parse_requires_python};
use sps2_builder::build_systems::{CMakeBuildSystem, CargoBuildSystem, GoBuildSystem, PackageManager, PythonBuildSystem};
use sps2_builder::cross::{CrossCompilationContext, Platform, Toolchain};
use sps2_builder::environment::build_env::BuildEnvironment;
use sps2_builder::errors::BuildError;
use sps2_builder::string_map::StringMap;

const ROOT: &str = "/tmp/sps2-build-root";

fn test_ctx() -> BuildSystemContext {
    let env = BuildEnvironment::new("test", "1.0.0", ROOT);
    BuildSystemContext::new(env, ROOT.to_string())
}

fn cross_ctx() -> CrossCompilationContext {
    CrossCompilationContext {
        build_platform: Platform::from_triple("x86_64-apple-darwin").unwrap(),
        host_platform: Platform::from_triple("aarch64-linux-gnu").unwrap(),
        target_platform: None,
        sysroot: "/sysroot".to_string(),
        toolchain: Toolchain {
            cc: "aarch64-linux-gnu-gcc".to_string(),
            cxx: "aarch64-linux-gnu-g++".to_string(),
            ar: "aarch64-linux-gnu-ar".to_string(),
            strip: "aarch64-linux-gnu-strip".to_string(),
            ranlib: "aarch64-linux-gnu-ranlib".to_string(),
            cmake_toolchain_file: "/sysroot/toolchain.cmake".to_string(),
            meson_cross_file: "/sysroot/cross-file.ini".to_string(),
        },
    }
}

#[test]
fn test_cmake_args() {
    let ctx = test_ctx();
    let system = CMakeBuildSystem::new();

    let args = system.get_cmake_args(&ctx, &["-DBUILD_SHARED_LIBS=ON".to_string()]);

    assert!(args
        .iter()
        .any(|arg| arg.starts_with("-DCMAKE_INSTALL_PREFIX=")));
    assert!(args.iter().any(|arg| arg == "-DCMAKE_BUILD_TYPE=Release"));
    assert!(args.iter().any(|arg| arg == "-DBUILD_SHARED_LIBS=ON"));
}

#[test]
fn cmake_args_exact_order() {
    let ctx = test_ctx();
    let system = CMakeBuildSystem::new();
    let args = system.get_cmake_args(&ctx, &["-DCMAKE_BUILD_TYPE=Debug".to_string()]);
    assert_eq!(
        args,
        vec![
            ROOT.to_string(),
            "-DCMAKE_INSTALL_PREFIX=/test-1.0.0".to_string(),
            "-DCMAKE_COLOR_MAKEFILE=ON".to_string(),
            "-DCMAKE_FIND_PACKAGE_PREFER_CONFIG=ON".to_string(),
            "-DCMAKE_BUILD_TYPE=Debug".to_string(),
        ]
    );
}

#[test]
fn cmake_args_for_cross_build_and_pkg_config() {
    let mut extra = StringMap::new();
    extra.insert("PKG_CONFIG_PATH".to_string(), "/opt/a/lib/pkgconfig:/opt/b/lib/pkgconfig".to_string());
    let ctx = test_ctx().with_extra_env(extra).with_cross_compilation(cross_ctx());
    let system = CMakeBuildSystem::new();
    let args = system.get_cmake_args(&ctx, &[]);
    assert!(args.contains(&"-DCMAKE_TOOLCHAIN_FILE=/sysroot/toolchain.cmake".to_string()));
    assert!(args.contains(&"-DCMAKE_SYSTEM_NAME=Linux".to_string()));
    assert!(args.contains(&"-DCMAKE_SYSTEM_PROCESSOR=aarch64".to_string()));
    assert!(args.contains(&"-DCMAKE_SYSROOT=/sysroot".to_string()));
    assert!(args.contains(&"-DCMAKE_PREFIX_PATH=/opt/a;/opt/b".to_string()));
}

#[test]
fn cmake_env_uses_compiler_launcher() {
    let ctx = test_ctx().with_cache_config(CacheConfig {
        use_compiler_cache: true,
        compiler_cache_type: CompilerCacheType::SCCache,
        cache_dir: "/cache".to_string(),
        max_size: 1,
        distributed: false,
    });
    let vars = CMakeBuildSystem::new().get_env_vars(&ctx);
    assert_eq!(vars.get("CMAKE_C_COMPILER_LAUNCHER"), Some(&"sccache".to_string()));
    assert_eq!(vars.get("DESTDIR"), Some(&format!("{ROOT}/test/1.0.0/stage")));
}

#[test]
fn test_build_args() {
    let ctx = test_ctx();
    let system = GoBuildSystem::new();

    let args = system.get_build_args(&ctx, &["-tags=release".to_string()], false);

    assert!(args.contains(&"build".to_string()));
    assert!(args.contains(&"-ldflags=-s -w".to_string()));
    assert!(args.contains(&"-tags=release".to_string()));
    assert!(args.contains(&"./...".to_string()));
}

#[test]
fn go_build_args_respect_user_target_and_output() {
    let ctx = test_ctx();
    let system = GoBuildSystem::new();
    let args = system.get_build_args(
        &ctx,
        &["-o".to_string(), "out".to_string(), "./cmd/tool".to_string()],
        true,
    );
    assert_eq!(args[0], "build");
    assert_eq!(args[1], "-mod=vendor");
    assert!(!args.contains(&"./...".to_string()));
    assert_eq!(args.iter().filter(|a| *a == "-o").count(), 1);
}

#[test]
fn test_env_vars() {
    let ctx = test_ctx();
    let system = GoBuildSystem::new();

    let vars = system.get_env_vars(&ctx);
    assert!(vars.contains_key("GOPATH"));
    assert_eq!(vars.get("CGO_ENABLED"), Some(&"0".to_string()));
    assert_eq!(vars.get("GOPROXY"), Some(&"off".to_string()));
}

#[test]
fn go_env_for_arm_cross_build() {
    let mut cross = cross_ctx();
    cross.host_platform = Platform::from_triple("armv7-linux-gnueabihf").unwrap();
    let ctx = test_ctx().with_network_allowed(true).with_cross_compilation(cross);
    let vars = GoBuildSystem::new().get_env_vars(&ctx);
    assert_eq!(vars.get("GOARCH"), Some(&"arm".to_string()));
    assert_eq!(vars.get("GOARM"), Some(&"7".to_string()));
    assert_eq!(vars.get("GOOS"), Some(&"linux".to_string()));
    assert!(!vars.contains_key("GOPROXY"));
    assert_eq!(vars.get("GOPATH"), Some(&format!("{ROOT}/test/1.0.0/deps/go")));
}

#[test]
fn cargo_build_args_gather_features() {
    let env = BuildEnvironment::new_with_jobs("test", "1.0.0", ROOT, 4);
    let ctx = BuildSystemContext::new(env, ROOT.to_string());
    let system = CargoBuildSystem::new();
    let args = system.get_build_args(
        &ctx,
        &["--features=a,b".to_string(), "--locked".to_string(), "--features=c".to_string()],
    );
    assert_eq!(
        args,
        vec![
            "build".to_string(),
            "--release".to_string(),
            "-j4".to_string(),
            "--offline".to_string(),
            "--features".to_string(),
            "a,b,c".to_string(),
            "--locked".to_string(),
        ]
    );
    let features = system.extract_features(&["--features=x".to_string(), "-v".to_string()]);
    assert_eq!(features, vec!["x".to_string()]);
}

#[test]
fn cargo_env_names_cross_linker() {
    let ctx = test_ctx().with_cross_compilation(cross_ctx());
    let vars = CargoBuildSystem::new().get_env_vars(&ctx);
    assert_eq!(
        vars.get("CARGO_TARGET_AARCH64_LINUX_GNU_LINKER"),
        Some(&"aarch64-linux-gnu-gcc".to_string())
    );
    assert_eq!(vars.get("PROFILE"), Some(&"release".to_string()));
}

#[test]
fn autotools_configure_args_and_line() {
    let mut extra = StringMap::new();
    extra.insert("CFLAGS".to_string(), "-O2 -g".to_string());
    let ctx = test_ctx().with_extra_env(extra);
    let args = AutotoolsBuildSystem::get_configure_args(&ctx, &["--enable-x".to_string()], false);
    assert_eq!(args[0], "--prefix=/opt/pm/live");
    assert_eq!(args[1], "--enable-x");
    assert!(args.contains(&"CFLAGS=-O2 -g".to_string()));
    let line = AutotoolsBuildSystem::configure_command("./configure", &args);
    assert!(line.contains("CFLAGS=\"-O2 -g\""));
    let mac = AutotoolsBuildSystem::get_configure_args(&ctx, &[], true);
    assert!(mac.contains(&"LDFLAGS=-Wl,-rpath,/opt/pm/live/lib".to_string()));
}

#[test]
fn python_pip_args() {
    let ctx = test_ctx();
    let args = PythonBuildSystem::new().get_pip_args(&ctx, &[]);
    assert_eq!(
        args,
        vec![
            "install".to_string(),
            "--no-index".to_string(),
            "--find-links".to_string(),
            format!("{ROOT}/vendor"),
            "--prefix".to_string(),
            format!("{ROOT}/test/1.0.0/stage/test-1.0.0"),
            "--no-deps".to_string(),
        ]
    );
}

#[test]
fn python_text_helpers() {
    let eps = parse_entry_points("[console_scripts]\nfoo = pkg.cli:main\n[other]\nbar = x:y\n");
    assert_eq!(eps.get("foo"), Some(&"pkg.cli:main".to_string()));
    assert!(!eps.contains_key("bar"));
    assert_eq!(parse_requires_python("name = \"x\"\n"), ">=3.8");
    assert_eq!(parse_requires_python("requires-python = \">3.9\"\n"), ">3.9");
    assert_eq!(
        fix_shebang("#!/usr/local/bin/python3.11\nprint(1)"),
        Some("#!/usr/bin/env python3\nprint(1)".to_string())
    );
    assert_eq!(fix_shebang("#!/bin/sh\necho"), None);
}

#[test]
fn lockfile_with_uv_falls_back_to_requirements() {
    let ctx = test_ctx();
    let (mut plan, step) = LockfilePlan::start(&ctx, true);
    match step {
        LockfileStep::Run { program, args } => {
            assert_eq!(program, "uv");
            assert_eq!(args[4], "pyproject.toml");
        }
        _ => panic!("expected a command"),
    }
    match plan.advance(false, "boom", true) {
        LockfileStep::Run { args, .. } => assert_eq!(args[4], "requirements.txt"),
        _ => panic!("expected a command"),
    }
    match plan.advance(false, "bad", true) {
        LockfileStep::Finished(Err(BuildError::CompilationFailed { message })) => {
            assert_eq!(message, "Failed to generate lockfile with uv: bad")
        }
        _ => panic!("expected a failure"),
    }
    assert_eq!(plan.stage, LockfileStage::Done);
}

#[test]
fn lockfile_with_pip_tools() {
    let ctx = test_ctx();
    let (mut plan, _) = LockfilePlan::start(&ctx, false);
    match plan.advance(false, "", false) {
        LockfileStep::Run { program, .. } => assert_eq!(program, format!("{ROOT}/venv/bin/pip-compile")),
        _ => panic!("expected a command"),
    }
    match plan.advance(true, "", false) {
        LockfileStep::Finished(Ok(path)) => assert_eq!(path, format!("{ROOT}/requirements.lock.txt")),
        _ => panic!("expected the lock file"),
    }
}

#[test]
fn nodejs_helpers() {
    let pm = PackageManager::detect_from(false, false, false, Some("{\"packageManager\": \"yarn@3\"}"));
    assert_eq!(pm, PackageManager::Yarn);
    assert_eq!(PackageManager::detect_from(true, true, false, None), PackageManager::Pnpm);
    assert_eq!(NodeJsBuildSystem::get_build_script("{\"scripts\": {\"compile\": \"tsc\"}}"), Some("compile"));
    assert_eq!(
        NodeJsBuildSystem::run_script_args("build", &["--prod".to_string()]),
        vec!["run".to_string(), "build".to_string(), "--".to_string(), "--prod".to_string()]
    );
    let ctx = test_ctx();
    let (wanted, copies) = NodeJsBuildSystem::bin_copies(&ctx, "{\"name\": \"tool\", \"bin\": \"cli.js\"}");
    assert!(wanted);
    assert_eq!(
        copies,
        vec![(format!("{ROOT}/cli.js"), format!("{ROOT}/test/1.0.0/stage/test-1.0.0/bin/tool"))]
    );
    let (wanted, copies) = NodeJsBuildSystem::bin_copies(&ctx, "not json");
    assert!(!wanted);
    assert!(copies.is_empty());
}

#[test]
fn absolute_bin_scripts_keep_their_path() {
    let bins = PackageBins {
        name: Some("tool".to_string()),
        bin: BinField::Table(vec![
            ("cli".to_string(), Some("/abs/cli.js".to_string())),
            ("rel".to_string(), Some("lib/rel.js".to_string())),
            ("bad".to_string(), None),
        ]),
    };
    let copies = NodeJsBuildSystem::plan_bin_copies("/w/src", "/stage", &bins);
    assert_eq!(
        copies,
        vec![
            ("/abs/cli.js".to_string(), "/stage/bin/cli".to_string()),
            ("/w/src/lib/rel.js".to_string(), "/stage/bin/rel".to_string()),
        ]
    );
    let one = PackageBins { name: None, bin: BinField::Script("/abs/cli.js".to_string()) };
    assert_eq!(
        NodeJsBuildSystem::plan_bin_copies("/w/src", "/stage/", &one),
        vec![("/abs/cli.js".to_string(), "/stage/bin/bin".to_string())]
    );
}

#[test]
fn project_files_decide_backends_and_names() {
    assert_eq!(
        detect_build_backend(Some("[build-system]\nrequires = [\"hatchling\"]\n"), true),
        Ok(BuildBackend::Hatch)
    );
    assert_eq!(detect_build_backend(Some("[build-system]\nbuild-backend = \"x\"\n"), false), Ok(BuildBackend::Pep517));
    assert_eq!(detect_build_backend(Some("[project]\nname = \"x\"\n"), true), Ok(BuildBackend::SetupPy));
    assert_eq!(
        detect_build_backend(None, false),
        Err(BuildError::ConfigureFailed { message: "No Python build configuration found".to_string() })
    );
    assert_eq!(
        find_wheel(&vec!["/d/x.tar.gz".to_string(), "/d/x-1.0-py3-none-any.whl".to_string()]),
        Ok("/d/x-1.0-py3-none-any.whl".to_string())
    );
    assert_eq!(
        find_wheel(&vec![]),
        Err(BuildError::CompilationFailed { message: "No wheel file found after build".to_string() })
    );
    assert_eq!(module_name(Some("// comment\nmodule  example.com/tool \ngo 1.21\n")), "example.com/tool");
    assert_eq!(module_name(Some("go 1.21\n")), "main");
    assert_eq!(module_name(None), "main");
    assert!(is_workspace_manifest("[workspace]\nmembers = []\n"));
    assert!(!is_workspace_manifest("[package]\nname = \"x\"\n"));
    assert!(needs_autoreconf(false, false, false, None, None));
    assert!(needs_autoreconf(true, true, false, Some(1), Some(2)));
    assert!(!needs_autoreconf(true, true, false, Some(2), Some(1)));
    assert!(needs_autoreconf(true, true, false, None, Some(1)));
    assert!(needs_autoreconf(true, false, true, Some(1), None));
    assert!(!needs_autoreconf(true, false, false, None, None));
}

#[test]
fn build_system_detection_order() {
    let none = SourceMarkers {
        configure: false,
        configure_ac: false,
        configure_in: false,
        makefile_am: false,
        cmake_lists: false,
        cargo_toml: false,
        go_mod: false,
        go_files: false,
        pyproject: false,
        setup_py: false,
        setup_cfg: false,
        package_json: false,
    };
    assert_eq!(
        detect_build_system(&none, "/src"),
        Err(BuildError::NoBuildSystemDetected { path: "/src".to_string() })
    );
    let both = SourceMarkers { cmake_lists: true, makefile_am: true, ..none };
    assert_eq!(detect_build_system(&both, "/src"), Ok("autotools"));
    let rust_and_node = SourceMarkers { cargo_toml: true, package_json: true, ..none };
    assert_eq!(detect_build_system(&rust_and_node, "/src"), Ok("cargo"));
    assert_eq!(detect_build_system(&SourceMarkers { go_files: true, setup_cfg: true, ..none }, "/s"), Ok("go"));
    assert_eq!(detect_build_system(&SourceMarkers { setup_cfg: true, ..none }, "/s"), Ok("python"));
    assert_eq!(detect_build_system(&SourceMarkers { package_json: true, ..none }, "/s"), Ok("nodejs"));
}

#[test]
fn cmake_toolchain_file_text() {
    let text = CMakeBuildSystem::toolchain_file_content(&cross_ctx());
    assert!(text.starts_with("# CMake toolchain file for cross-compilation\n                    set(CMAKE_SYSTEM_NAME Linux)\n"));
    assert!(text.contains("set(CMAKE_C_COMPILER aarch64-linux-gnu-gcc)"));
    assert!(text.contains("set(ENV{PKG_CONFIG_PATH} \"/sysroot/usr/lib/pkgconfig:/sysroot/usr/share/pkgconfig\")"));
    assert!(text.ends_with("set(ENV{PKG_CONFIG_SYSROOT_DIR} \"/sysroot\")\n                    "));
}

#[test]
fn ctest_output_and_arguments() {
    let out = "Test project /b\n 1/3 Test #1: a ......   Passed\n 2/3 Test #2: b ......***Failed  0.01 sec\n    3 - c (Timeout) ***Timeout\n67% tests passed, 1 tests failed out of 3\n";
    let (total, passed, failed, failures) = parse_ctest_output(out, false);
    assert_eq!((total, passed, failed), (3, 2, 1));
    assert_eq!(failures.len(), 2);
    assert_eq!(failures[0].name, "Test");
    assert_eq!(failures[1].name, "-");
    assert_eq!(parse_ctest_output("no tests here", false).0, 1);
    assert_eq!(parse_ctest_output("no tests here", false).2, 1);
    assert_eq!(parse_ctest_output("no tests here", true).0, 0);
    let env = BuildEnvironment::new_with_jobs("test", "1.0.0", ROOT, 8);
    let ctx = BuildSystemContext::new(env, ROOT.to_string());
    assert_eq!(ctest_args(&ctx), vec!["--output-on-failure".to_string(), "--parallel".to_string(), "8".to_string()]);
}

#[test]
fn test_runner_arguments() {
    let env = BuildEnvironment::new_with_jobs("test", "1.0.0", ROOT, 4);
    let ctx = BuildSystemContext::new(env, ROOT.to_string());
    let go = GoBuildSystem::new().test_args(&ctx, true);
    assert_eq!(go, vec!["test", "-mod=vendor", "-v", "-parallel", "4", "./..."].iter().map(|s| s.to_string()).collect::<Vec<_>>());
    let cargo = CargoBuildSystem::new().test_args(&ctx);
    assert_eq!(cargo, vec!["test", "--offline", "--", "--test-threads", "4"].iter().map(|s| s.to_string()).collect::<Vec<_>>());
    let mut extra = StringMap::new();
    extra.insert("PROFILE".to_string(), "release".to_string());
    let one = BuildEnvironment::new_with_jobs("test", "1.0.0", ROOT, 1);
    let ctx1 = BuildSystemContext::new(one, ROOT.to_string()).with_extra_env(extra).with_network_allowed(true);
    assert_eq!(CargoBuildSystem::new().test_args(&ctx1), vec!["test".to_string(), "--release".to_string()]);
    let (prog, args) = PythonBuildSystem::new().test_command(&ctx, true);
    assert_eq!(prog, "pytest");
    assert_eq!(args, vec!["-v", "--tb=short", "-n", "4"].iter().map(|s| s.to_string()).collect::<Vec<_>>());
    let (prog, args) = PythonBuildSystem::new().test_command(&ctx1, false);
    assert_eq!(prog, "python3");
    assert_eq!(args, vec!["-m".to_string(), "unittest".to_string(), "discover".to_string()]);
    let (t, p, f, fails) = PythonBuildSystem::new().unittest_results(false, "boom");
    assert_eq!((t, p, f), (1, 0, 1));
    assert_eq!(fails[0].details, Some("boom".to_string()));
    assert_eq!(skipped_tests(10, 6, 3), 1);
    assert_eq!(skipped_tests(2, 3, 1), 0);
    assert_eq!(single_outcome(true), (1, 1, 0));
    assert_eq!(single_outcome(false), (1, 0, 1));
}

#[test]
fn in_source_build_systems() {
    assert!(!CargoBuildSystem::new().prefers_out_of_source_build());
    assert!(!AutotoolsBuildSystem::new().prefers_out_of_source_build());
    assert!(CMakeBuildSystem::new().prefers_out_of_source_build());
}
