use sps2_builder::cross::{select_toolchain, toolchain_candidates};
use sps2_builder::cross::{
    format_meson_args, get_autotools_configure_args, get_endianness, get_multiarch_triplet, get_toolchain_prefix,
    setup_cross_flags, toolchain_prefixes, toolchain_with_prefix, validate_platform_compatibility,
    CrossCompilationContext, EnhancedCrossContext, Platform,
};
use sps2_builder::errors::BuildError;
use sps2_builder::string_map::StringMap;

fn platform(t: &str) -> Platform {
    Platform::from_triple(t).unwrap()
}

fn ctx() -> CrossCompilationContext {
    CrossCompilationContext {
        build_platform: platform("x86_64-apple-darwin"),
        host_platform: platform("aarch64-linux-gnu"),
        target_platform: None,
        sysroot: "/sysroot".to_string(),
        toolchain: toolchain_with_prefix("aarch64-linux-gnu-", false, "/sysroot"),
    }
}

#[test]
fn triples_parse_by_their_parts() {
    let p = platform("aarch64-linux-gnu");
    assert_eq!((p.arch.as_str(), p.os.as_str()), ("aarch64", "linux"));
    assert_eq!(p.vendor, None);
    assert_eq!(p.abi, Some("gnu".to_string()));

    let mac = platform("x86_64-apple-darwin");
    assert_eq!(mac.vendor, Some("apple".to_string()));
    assert_eq!(mac.os, "darwin");
    assert_eq!(mac.abi, None);

    let long = platform("armv7-unknown-linux-gnu-eabi");
    assert_eq!(long.vendor, Some("unknown".to_string()));
    assert_eq!(long.abi, Some("gnu-eabi".to_string()));

    assert_eq!(platform("wasm32-wasi").triple(), "wasm32-wasi");
    assert_eq!(mac.triple(), "x86_64-apple-darwin");
    assert_eq!(
        Platform::from_triple("x86_64").unwrap_err(),
        BuildError::Failed { message: "Invalid target triple: x86_64".to_string() }
    );
}

#[test]
fn toolchain_names() {
    assert_eq!(get_toolchain_prefix(&platform("aarch64-linux-gnu")), "aarch64-linux-gnu");
    assert_eq!(get_toolchain_prefix(&platform("armv7-linux-gnueabihf")), "arm-linux-gnueabihf");
    assert_eq!(get_toolchain_prefix(&platform("x86_64-windows-gnu")), "x86_64-w64-mingw32");
    assert_eq!(get_toolchain_prefix(&platform("riscv64-linux-gnu")), "");
    assert_eq!(get_multiarch_triplet(&platform("armv7-linux-gnueabihf")), "arm-linux-gnueabihf");
    assert_eq!(get_multiarch_triplet(&platform("x86_64-apple-darwin")), "x86_64-apple-darwin");
    assert_eq!(
        toolchain_prefixes(&platform("aarch64-linux-gnu")),
        vec!["aarch64-linux-gnu-".to_string(), "aarch64-linux-gnu-".to_string(), String::new()]
    );
    assert_eq!(toolchain_prefixes(&platform("riscv64-linux-gnu")), vec![String::new()]);

    let gcc = toolchain_with_prefix("aarch64-linux-gnu-", false, "/sysroot");
    assert_eq!(gcc.cc, "aarch64-linux-gnu-gcc");
    assert_eq!(gcc.ranlib, "aarch64-linux-gnu-ranlib");
    assert_eq!(gcc.cmake_toolchain_file, "/sysroot/toolchain.cmake");
    let clang = toolchain_with_prefix("", true, "/s");
    assert_eq!(clang.cxx, "clang++");
    assert_eq!(clang.ar, "llvm-ar");
}

#[test]
fn platform_pairs() {
    let linux = platform("x86_64-linux-gnu");
    let arm = platform("aarch64-linux-gnu");
    let mac = platform("aarch64-apple-darwin");
    assert_eq!(validate_platform_compatibility(&linux, &arm), Ok(()));
    assert_eq!(validate_platform_compatibility(&mac, &arm), Ok(()));
    assert_eq!(
        validate_platform_compatibility(&linux, &linux),
        Err(BuildError::Failed {
            message: "Build and host platforms are the same, cross-compilation not needed".to_string()
        })
    );
    assert_eq!(
        validate_platform_compatibility(&linux, &mac),
        Err(BuildError::Failed { message: "Cross-compilation from Linux to macOS is not supported".to_string() })
    );
    assert_eq!(
        validate_platform_compatibility(&platform("x86_64-windows-gnu"), &linux),
        Err(BuildError::Failed { message: "Cross-compilation from windows to linux is not supported".to_string() })
    );
}

#[test]
fn cross_flags_by_architecture() {
    let f = setup_cross_flags(&platform("aarch64-linux-gnu"), "/sr");
    assert_eq!(f.get("CFLAGS"), Some(&"-march=armv8-a".to_string()));
    assert_eq!(f.get("CXXFLAGS"), Some(&"--sysroot=/sr".to_string()));
    assert_eq!(f.get("LDFLAGS"), Some(&"--sysroot=/sr".to_string()));
    assert!(!f.contains_key("MACOSX_DEPLOYMENT_TARGET"));

    let hf = setup_cross_flags(&platform("armv7-linux-gnueabihf"), "/sr");
    assert_eq!(hf.get("CFLAGS"), Some(&"-mfpu=neon-vfpv4".to_string()));

    let mac = setup_cross_flags(&platform("x86_64-apple-darwin"), "/sr");
    assert_eq!(mac.get("CFLAGS"), Some(&"--sysroot=/sr".to_string()));
    assert_eq!(mac.get("LDFLAGS"), Some(&"--sysroot=/sr -headerpad_max_install_names".to_string()));
    assert_eq!(mac.get("MACOSX_DEPLOYMENT_TARGET"), Some(&"11.0".to_string()));
}

#[test]
fn meson_arrays_and_byte_order() {
    assert_eq!(format_meson_args("-O2  -g"), "'-O2', '-g'");
    assert_eq!(format_meson_args(""), "");
    assert_eq!(get_endianness("powerpc"), "big");
    assert_eq!(get_endianness("aarch64"), "little");
}

#[test]
fn autotools_cross_arguments() {
    let mut flags = StringMap::new();
    flags.insert("CFLAGS".to_string(), "-march=armv8-a".to_string());
    let args = get_autotools_configure_args(&ctx(), &flags);
    assert_eq!(
        args,
        vec![
            "--host=aarch64-linux-gnu".to_string(),
            "--build=x86_64-apple-darwin".to_string(),
            "CFLAGS=--sysroot=/sysroot -march=armv8-a".to_string(),
            "CXXFLAGS=--sysroot=/sysroot ".to_string(),
            "LDFLAGS=--sysroot=/sysroot ".to_string(),
        ]
    );
}

fn enhanced() -> EnhancedCrossContext {
    let mut tools = StringMap::new();
    for (k, v) in [
        ("cc", "aarch64-linux-gnu-gcc"),
        ("cxx", "aarch64-linux-gnu-g++"),
        ("ar", "aarch64-linux-gnu-ar"),
        ("strip", "aarch64-linux-gnu-strip"),
        ("ranlib", "aarch64-linux-gnu-ranlib"),
    ] {
        tools.insert(k.to_string(), v.to_string());
    }
    EnhancedCrossContext {
        base: ctx(),
        validated_tools: tools,
        multiarch_paths: vec!["/sysroot/usr/lib".to_string()],
        pkg_config_paths: vec!["/sysroot/usr/lib/pkgconfig".to_string()],
        cross_flags: setup_cross_flags(&platform("aarch64-linux-gnu"), "/sysroot"),
    }
}

#[test]
fn sysroot_search_directories() {
    let e = enhanced();
    assert_eq!(
        e.multiarch_candidates(),
        vec![
            "/sysroot/usr/lib/aarch64-linux-gnu".to_string(),
            "/sysroot/lib/aarch64-linux-gnu".to_string(),
            "/sysroot/usr/lib".to_string(),
            "/sysroot/lib".to_string(),
        ]
    );
    let pc = e.pkg_config_candidates();
    assert_eq!(pc[0], "/sysroot/usr/lib/pkgconfig");
}

#[test]
fn generated_cross_files() {
    let e = enhanced();
    let cargo = e.cargo_config_content();
    assert!(cargo.contains("[target.aarch64-linux-gnu]\nlinker = \"aarch64-linux-gnu-gcc\"\nar = \"aarch64-linux-gnu-ar\""));
    assert!(cargo.contains("link-arg=--sysroot=/sysroot"));
    assert!(cargo.ends_with("CARGO_TARGET_DIR = \"target/aarch64-linux-gnu\"\n"));

    let meson = e.meson_cross_content();
    assert!(meson.contains("c = 'aarch64-linux-gnu-gcc'"));
    assert!(meson.contains("c_args = ['-march=armv8-a']"));
    assert!(meson.contains("system = 'linux'\ncpu_family = 'aarch64'\ncpu = 'aarch64'\nendian = 'little'\n"));

    let cmake = e.cmake_toolchain_content();
    assert!(cmake.contains("set(CMAKE_SYSTEM_NAME Linux)\nset(CMAKE_SYSTEM_PROCESSOR aarch64)"));
    assert!(cmake.contains("set(CMAKE_LIBRARY_PATH /sysroot/usr/lib)"));
    assert!(cmake.contains("set(ENV{PKG_CONFIG_PATH} \"/sysroot/usr/lib/pkgconfig\")"));
}

#[test]
fn toolchain_selection_takes_the_first_compiler_found() {
    let arm = platform("aarch64-linux-gnu");
    assert_eq!(
        toolchain_candidates(&arm),
        vec![
            "aarch64-linux-gnu-gcc".to_string(),
            "aarch64-linux-gnu-clang".to_string(),
            "aarch64-linux-gnu-gcc".to_string(),
            "aarch64-linux-gnu-clang".to_string(),
            "gcc".to_string(),
            "clang".to_string(),
        ]
    );
    let t = select_toolchain(&arm, "/sr", &vec![false, true, true]).unwrap();
    assert_eq!(t.cc, "aarch64-linux-gnu-clang");
    assert_eq!(t.ranlib, "aarch64-linux-gnu-llvm-ranlib");
    assert_eq!(t.meson_cross_file, "/sr/cross-file.ini");
    let host = select_toolchain(&arm, "/sr", &vec![false, false, false, false, true]).unwrap();
    assert_eq!(host.cxx, "g++");
    assert_eq!(
        select_toolchain(&arm, "/sr", &vec![false; 6]).unwrap_err(),
        BuildError::Failed { message: "No suitable toolchain found for aarch64-linux-gnu".to_string() }
    );
    assert_eq!(toolchain_candidates(&platform("riscv64-linux-gnu")), vec!["gcc".to_string(), "clang".to_string()]);
    assert!(select_toolchain(&platform("riscv64-linux-gnu"), "/sr", &vec![false, false, true]).is_err());
}
