use sps2_builder::api::{configure_line, make_args, patch_args};
use sps2_builder::environment::build_env::BuildEnvironment;
use sps2_builder::api::{check_digest, plan_zip_extraction, plan_zip_writes, verify_md5, verify_sha256, ZipEntry};
use std::io::Write;
use sps2_builder::api::{
    archive_kind, clone_args, clone_failure_message, executable_mode, fix_permissions_report, patch_rpaths_report,
    repo_name, tar_entry_target, zip_entry_target, zip_has_single_root, ArchiveKind, BuilderApi, FetchPlan,
};
use sps2_builder::artifact_qa::patchers::rpath::RpathStyle;
use sps2_builder::build_context::BuildContext;
use sps2_builder::build_flow::{building_message, dependency_setup_message, BuildRun, BuildStage};
use sps2_builder::cache::{BuildCache, CompilerCache, CompilerCacheType, IncrementalBuildTracker, SourceCache};
use sps2_builder::compression::CompressionLevel;
use sps2_builder::environment::types::IsolationLevel;
use sps2_builder::errors::BuildError;
use sps2_builder::format::{detect_format, is_zstd_magic};

fn strings(v: &[&str]) -> Vec<String> {
    v.iter().map(|s| s.to_string()).collect()
}

#[test]
fn archives_by_extension_then_magic() {
    assert_eq!(archive_kind("/w/src.tar.gz", b""), Some(ArchiveKind::TarGz));
    assert_eq!(archive_kind("/w/src.tgz", b""), Some(ArchiveKind::TarGz));
    assert_eq!(archive_kind("/w/src.tar.xz", b""), Some(ArchiveKind::TarXz));
    assert_eq!(archive_kind("/w/src.zip", b"\x1f\x8b\0\0"), Some(ArchiveKind::Zip));
    assert_eq!(archive_kind("/w/download", b"PK\x03\x04"), Some(ArchiveKind::Zip));
    assert_eq!(archive_kind("/w/download", b"BZh9"), Some(ArchiveKind::TarBz2));
    assert_eq!(archive_kind("/w/download", b"\x1f\x8b"), None);
    assert_eq!(archive_kind("/w/notes.txt", b"PK\x03\x04"), None);
}

#[test]
fn repositories_and_clones() {
    assert_eq!(repo_name("https://github.com/org/tool.git"), "tool");
    assert_eq!(repo_name("https://github.com/org/tool"), "tool");
    assert_eq!(
        clone_args("https://x/r.git", "HEAD", "/w/r"),
        strings(&["clone", "--depth", "1", "https://x/r.git", "/w/r"])
    );
    assert_eq!(
        clone_args("https://x/r.git", "v1.0", "/w/r"),
        strings(&["clone", "--depth", "1", "--branch", "v1.0", "https://x/r.git", "/w/r"])
    );
    assert_eq!(clone_failure_message("u", "denied"), "Failed to clone u: denied");
}

#[test]
fn downloads_are_fetched_once() {
    let mut api = BuilderApi::new("/w/src".to_string());
    match api.fetch_target("https://example.com/pkg/foo-1.0.tar.gz") {
        FetchPlan::Fetch(p) => assert_eq!(p, "/w/src/foo-1.0.tar.gz"),
        other => panic!("unexpected {other:?}"),
    }
    api.record_download("https://example.com/pkg/foo-1.0.tar.gz", "/cache/foo.tar.gz".to_string());
    match api.fetch_target("https://example.com/pkg/foo-1.0.tar.gz") {
        FetchPlan::Cached(p) => assert_eq!(p, "/cache/foo.tar.gz"),
        other => panic!("unexpected {other:?}"),
    }
    match api.clone_target("https://x/org/lib.git") {
        FetchPlan::Fetch(p) => assert_eq!(p, "/w/src/lib"),
        other => panic!("unexpected {other:?}"),
    }
    api.record_clone("https://x/org/lib.git", "/w/src/lib".to_string());
    assert_eq!(api.working_dir, "/w/src/lib");
    assert_eq!(api.extraction_base(None), "/w/src/lib");
    assert_eq!(api.extraction_base(Some("out")), "/w/src/out");
}

#[test]
fn api_settings() {
    let mut api = BuilderApi::new("/w".to_string());
    assert!(!api.allow_network);
    assert_eq!(api.sbom_config(), (true, &strings(&["./*.dSYM", "./*.pdb", "./*.a", "./*.la"])[..]));
    assert!(!api.is_isolation_explicitly_set());
    api.set_isolation(IsolationLevel::Hermetic);
    assert_eq!(api.explicit_isolation_level(), Some(IsolationLevel::Hermetic));
    let r = api.install();
    assert!(r.success && api.is_install_requested());
    assert_eq!(r.stdout, "Installation request recorded");
    api.auto_sbom(false);
    assert!(!api.sbom_config().0);
}

#[test]
fn entry_targets_drop_the_root() {
    let comps = strings(&["pkg-1.0", "src", "main.c"]);
    assert_eq!(zip_entry_target("/w", &comps, false), Some("/w/pkg-1.0/src/main.c".to_string()));
    assert_eq!(zip_entry_target("/w", &comps, true), Some("/w/src/main.c".to_string()));
    assert_eq!(zip_entry_target("/w", &strings(&["pkg-1.0"]), true), None);
    assert_eq!(tar_entry_target("/w", &comps), Some("/w/src/main.c".to_string()));
    assert_eq!(tar_entry_target("/w", &strings(&["README"])), None);

    let single = vec![(strings(&["pkg"]), true), (strings(&["pkg", "a.c"]), false)];
    assert!(zip_has_single_root(&single));
    let file_at_top = vec![(strings(&["pkg"]), true), (strings(&["README"]), false)];
    assert!(!zip_has_single_root(&file_at_top));
    let two = vec![(strings(&["a"]), true), (strings(&["b"]), true)];
    assert!(!zip_has_single_root(&two));
    let repeated = vec![(strings(&["a"]), true), (strings(&["a"]), true)];
    assert!(zip_has_single_root(&repeated));
}

#[test]
fn execute_bits_follow_read_bits() {
    assert_eq!(executable_mode(0o644), Some(0o755));
    assert_eq!(executable_mode(0o600), Some(0o700));
    assert_eq!(executable_mode(0o100644), Some(0o100755));
    assert_eq!(executable_mode(0o755), None);
}

#[test]
fn fix_reports() {
    let ok = patch_rpaths_report(3, RpathStyle::Modern, &vec![]);
    assert!(ok.success);
    assert_eq!(ok.exit_code, Some(0));
    assert_eq!(ok.stdout, "Patched 3 files with Modern style");
    let bad = fix_permissions_report(0, &strings(&["e1", "e2"]));
    assert!(!bad.success);
    assert_eq!(bad.exit_code, Some(1));
    assert_eq!(bad.stdout, "No files needed permission fixes");
    assert_eq!(bad.stderr, "e1\ne2");
    assert_eq!(fix_permissions_report(2, &vec![]).stdout, "Fixed permissions on 2 files");
}

#[test]
fn build_context_names_the_package() {
    let ctx = BuildContext::new(
        "zlib".to_string(),
        "1.3.1".to_string(),
        "/r/zlib.star".to_string(),
        "/out".to_string(),
    );
    assert_eq!(ctx.package_filename(), "zlib-1.3.1-1.arm64.sp");
    assert_eq!(ctx.session_id(), "build:zlib-1.3.1");
    let ctx = ctx.with_revision(2).with_arch("x86_64".to_string()).with_session_id("s1".to_string());
    assert_eq!(ctx.output_path(), "/out/zlib-1.3.1-2.x86_64.sp");
    assert_eq!(ctx.session_id(), "s1");
}

#[test]
fn build_stages_in_order() {
    let mut run = BuildRun::start();
    assert_eq!(run.stage, BuildStage::SetupEnvironment);
    assert_eq!(run.advance(true, false), BuildStage::ExecuteRecipe);
    assert_eq!(run.advance(true, true), BuildStage::QualityPipeline);
    assert_eq!(run.advance(true, false), BuildStage::FixPermissions);
    assert_eq!(run.advance(true, false), BuildStage::SbomAndManifest);
    assert_eq!(run.advance(true, false), BuildStage::Package);
    assert_eq!(run.advance(true, false), BuildStage::Finished);
    assert_eq!(run.advance(false, false), BuildStage::Finished);

    let mut plain = BuildRun::start();
    plain.advance(true, false);
    plain.advance(true, false);
    assert_eq!(plain.advance(true, false), BuildStage::SbomAndManifest);
    assert_eq!(plain.advance(false, false), BuildStage::Failed);
    assert_eq!(plain.advance(true, false), BuildStage::Failed);

    assert_eq!(building_message("zlib", "1.3"), "Building zlib 1.3");
    assert_eq!(dependency_setup_message(4), "Setting up 4 build dependencies");
}

#[test]
fn compiler_cache_variables() {
    assert_eq!(CompilerCache::detect_type(true, true), CompilerCacheType::SCCache);
    assert_eq!(CompilerCache::detect_type(false, true), CompilerCacheType::CCache);
    assert_eq!(CompilerCache::detect_type(false, false), CompilerCacheType::NoCache);
    let sc = CompilerCache::with_type(CompilerCacheType::SCCache, "/c".to_string()).get_env_vars();
    assert_eq!(sc.get("SCCACHE_DIR"), Some(&"/c".to_string()));
    assert_eq!(sc.get("SCCACHE_CACHE_SIZE"), Some(&"5G".to_string()));
    assert_eq!(sc.get("RUSTC_WRAPPER"), Some(&"sccache".to_string()));
    let cc = CompilerCache::with_type(CompilerCacheType::CCache, "/c".to_string()).get_env_vars();
    assert_eq!(cc.get("CCACHE_MAXSIZE"), Some(&"5G".to_string()));
    assert_eq!(CompilerCache::with_type(CompilerCacheType::NoCache, "/c".to_string()).get_env_vars().len(), 0);
}

#[test]
fn machine_compiler_cache_matches_installed_tools() {
    let cache = CompilerCache::new("/c".to_string());
    let vars = cache.get_env_vars();
    let expected = if which::which("sccache").is_ok() {
        Some("SCCACHE_DIR")
    } else if which::which("ccache").is_ok() {
        Some("CCACHE_DIR")
    } else {
        None
    };
    match expected {
        Some(key) => assert_eq!(vars.get(key), Some(&"/c".to_string())),
        None => assert_eq!(vars.len(), 0),
    }
}

#[test]
fn source_cache_roundtrip() {
    let mut c = SourceCache::new("/s".to_string());
    assert_eq!(c.get_download("u"), None);
    c.cache_download("u".to_string(), "/s/u.tar".to_string());
    c.cache_git_repo("g".to_string(), "/s/g".to_string());
    assert_eq!(c.get_download("u"), Some("/s/u.tar".to_string()));
    assert_eq!(c.get_git_repo("g"), Some("/s/g".to_string()));
    assert_eq!(c.get_download("g"), None);
    c.clear();
    assert_eq!(c.get_git_repo("g"), None);

    let b = BuildCache::new("/root-cache".to_string());
    assert_eq!(b.cache_root(), "/root-cache");
    assert_eq!(b.get_statistics().cache_hits, 0);
}

#[test]
fn incremental_tracking() {
    let mut t = IncrementalBuildTracker::new();
    assert!(t.has_changed("a.c", Some(5)));
    t.track_file("a.c".to_string(), Some(5));
    assert!(!t.has_changed("a.c", Some(5)));
    assert!(t.has_changed("a.c", Some(6)));
    assert!(t.has_changed("a.c", None));
    t.add_dependency("app".to_string(), "a.c".to_string());
    t.add_dependency("app".to_string(), "b.c".to_string());
    t.add_dependency("lib".to_string(), "c.c".to_string());
    assert_eq!(t.get_dependencies("app"), strings(&["a.c", "b.c"]));
    t.mark_changed("a.c".to_string());
    t.mark_changed("a.c".to_string());
    assert_eq!(t.get_files_to_rebuild(), &strings(&["a.c"]));
    t.clear_changed_files();
    assert!(t.get_files_to_rebuild().is_empty());
}

#[test]
fn compression_levels() {
    assert_eq!(CompressionLevel::parse("FAST"), Ok(CompressionLevel::Fast));
    assert_eq!(CompressionLevel::parse("max"), Ok(CompressionLevel::Maximum));
    assert_eq!(CompressionLevel::parse("7"), Ok(CompressionLevel::Custom(7)));
    assert_eq!(
        CompressionLevel::parse("30"),
        Err("Compression level must be between 1 and 22, got 30".to_string())
    );
    assert_eq!(
        CompressionLevel::parse("zip"),
        Err("Invalid compression level 'zip'. Valid options: fast, balanced, maximum, or 1-22".to_string())
    );
    assert_eq!(CompressionLevel::Custom(30).zstd_level(), 22);
    assert_eq!(CompressionLevel::Balanced.zstd_level(), 9);
    assert_eq!(CompressionLevel::Custom(5).speed_tenths(), 30);
    assert_eq!(CompressionLevel::Custom(12).size_tenths(), 50);
    assert_eq!(CompressionLevel::Custom(2).description(), "Custom fast compression");
}

#[test]
fn package_format_detection() {
    assert!(!is_zstd_magic(b"Hello, World!"));
    assert!(!is_zstd_magic(&[0x28, 0xB5]));
    assert!(is_zstd_magic(&[0x28, 0xB5, 0x2F, 0xFD, 0x00]));
    let info = detect_format(&[0x28, 0xB5, 0x2F, 0xFD], 100).unwrap();
    assert_eq!(info.compressed_size, 100);
    assert_eq!(info.config.level, CompressionLevel::Balanced);
    assert_eq!(
        detect_format(b"Hell", 13),
        Err(BuildError::Failed {
            message: "Invalid package format: expected zstd magic bytes, got [72, 101, 108, 108]".to_string()
        })
    );
}

#[test]
fn download_digests() {
    assert_eq!(verify_md5("/w/a.tar.gz", b"abc", "900150983CD24FB0D6963F7D28E17F72"), Ok(()));
    assert_eq!(
        verify_md5("/w/a.tar.gz", b"abcd", "900150983cd24fb0d6963f7d28e17f72"),
        Err(BuildError::HashMismatch {
            file: "a.tar.gz".to_string(),
            expected: "900150983cd24fb0d6963f7d28e17f72".to_string(),
            actual: "e2fc714c4727ee9395f324cd2e7f331f".to_string(),
        })
    );
    assert_eq!(
        verify_sha256("/w/b.zip", b"abc", "ba7816bf8f01cfea414140de5dae2223b00361a396177a9cb410ff61f20015ad"),
        Ok(())
    );
    assert!(matches!(
        verify_sha256("/w/b.zip", b"", "00"),
        Err(BuildError::HashMismatch { ref actual, .. })
            if actual == "e3b0c44298fc1c149afbf4c8996fb92427ae41e4649b934ca495991b7852b855"
    ));
    assert_eq!(
        check_digest("/", "aa", "AB".to_string()),
        Err(BuildError::HashMismatch { file: "unknown".to_string(), expected: "aa".to_string(), actual: "AB".to_string() })
    );
}

#[test]
fn recipe_command_lines() {
    assert_eq!(configure_line(&strings(&["--enable-shared"])), "./configure --prefix=/opt/pm/live --enable-shared");
    assert_eq!(configure_line(&strings(&["--prefix=/x", "-q"])), "./configure --prefix=/x -q");
    assert_eq!(configure_line(&[]), "./configure --prefix=/opt/pm/live");
    assert_eq!(
        make_args(&strings(&["install", "DESTDIR=stage", "-j4"]), "/b/stage"),
        strings(&["install", "DESTDIR=/b/stage", "-j4"])
    );
    assert_eq!(patch_args("/p/fix.patch"), strings(&["-p1", "-i", "/p/fix.patch"]));

    let mut api = BuilderApi::new("/w/src".to_string());
    api.allow_network(true);
    let env = BuildEnvironment::new_with_jobs("zlib", "1.3", "/b", 6);
    let ctx = api.system_context(env, true);
    assert_eq!(ctx.build_dir, "/w/src/build");
    assert_eq!(ctx.source_dir, "/w/src");
    assert!(ctx.network_allowed);
    assert_eq!(ctx.jobs, 6);
    let env = BuildEnvironment::new_with_jobs("zlib", "1.3", "/b", 6);
    assert_eq!(api.system_context(env, false).build_dir, "/w/src");
}

#[test]
fn shown_levels_parse_back() {
    for level in [
        CompressionLevel::Fast,
        CompressionLevel::Balanced,
        CompressionLevel::Maximum,
        CompressionLevel::Custom(1),
        CompressionLevel::Custom(19),
        CompressionLevel::Custom(22),
    ] {
        assert_eq!(CompressionLevel::parse(&level.display()), Ok(level));
    }
    assert!(CompressionLevel::parse(&CompressionLevel::Custom(0).display()).is_err());
}

#[test]
fn cache_variables_exactly_with_a_wrapper() {
    for t in [CompilerCacheType::CCache, CompilerCacheType::SCCache, CompilerCacheType::NoCache] {
        let c = CompilerCache::with_type(t, "/c".to_string());
        assert_eq!(c.get_env_vars().len() == 0, c.get_wrapper().is_none());
    }
}

fn zip_bytes(entries: &[(&str, Option<&[u8]>)]) -> Vec<u8> {
    let mut w = zip::ZipWriter::new(std::io::Cursor::new(Vec::new()));
    let opts = zip::write::SimpleFileOptions::default()
        .compression_method(zip::CompressionMethod::Stored)
        .unix_permissions(0o755);
    for (name, data) in entries {
        match data {
            None => w.add_directory(*name, opts).unwrap(),
            Some(d) => {
                w.start_file(*name, opts).unwrap();
                w.write_all(d).unwrap();
            }
        }
    }
    w.finish().unwrap().into_inner()
}

#[test]
fn zip_plan_drops_single_root_and_unsafe_names() {
    let bytes = zip_bytes(&[
        ("pkg-1.0/", None),
        ("pkg-1.0/src/main.c", Some(b"int main;")),
        ("../evil.txt", Some(b"x")),
    ]);
    let writes = plan_zip_extraction("/w", &bytes).unwrap();
    assert_eq!(writes.len(), 1);
    assert_eq!(writes[0].path, "/w/src/main.c");
    assert!(!writes[0].is_dir);
    assert_eq!(writes[0].contents, b"int main;".to_vec());
    assert_eq!(writes[0].mode.map(|m| m & 0o777), Some(0o755));

    let two_roots = zip_bytes(&[("a/", None), ("b.txt", Some(b"b"))]);
    let writes = plan_zip_extraction("/w", &two_roots).unwrap();
    let paths: Vec<_> = writes.iter().map(|w| (w.path.clone(), w.is_dir)).collect();
    assert_eq!(paths, vec![("/w/a".to_string(), true), ("/w/b.txt".to_string(), false)]);

    match plan_zip_extraction("/w", b"not a zip archive") {
        Err(BuildError::ExtractionFailed { message }) => assert_eq!(message, "Failed to read zip archive"),
        _ => panic!("expected a failure"),
    }
}

#[test]
fn zip_writes_skip_entries_without_a_name() {
    let entries = vec![
        ZipEntry { components: None, is_dir: false, unix_mode: None, contents: vec![1] },
        ZipEntry { components: Some(strings(&["top"])), is_dir: true, unix_mode: None, contents: vec![] },
        ZipEntry { components: Some(strings(&["top", "f"])), is_dir: false, unix_mode: Some(0o644), contents: vec![2] },
    ];
    let writes = plan_zip_writes("/b", &entries);
    assert_eq!(writes.len(), 1);
    assert_eq!(writes[0].path, "/b/f");
    assert_eq!(writes[0].contents, vec![2]);
    assert_eq!(writes[0].mode, Some(0o644));
}
