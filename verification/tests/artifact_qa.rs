use sps2_builder::artifact_qa::diagnostics::{DiagnosticCollector, IssueType};
use sps2_builder::artifact_qa::patchers::binary_string::{
    binary_replacements, contains_bytes, find_binary_strings, has_binary_extension, is_binary_file,
    patch_binary_data, replace_binary_string,
};
use sps2_builder::artifact_qa::patchers::permissions::PermissionsFixer;
use sps2_builder::artifact_qa::patchers::pkgconfig::PkgConfigPatcher;
use sps2_builder::artifact_qa::patchers::python_bytecode_cleanup::PythonBytecodeCleanupPatcher;
use sps2_builder::artifact_qa::patchers::rpath::{
    fix_summary, headerpad_fallback_warning, install_name_error, is_headerpad_error, new_install_name,
    RPathPatcher, RpathStyle, RpathTally,
};
use sps2_builder::artifact_qa::pipeline::{QaOutcome, QaPipeline, QaStep};
use sps2_builder::artifact_qa::reports::{MergedReport, Report};
use sps2_builder::artifact_qa::router::{
    determine_profile, determine_profile_with_override, get_patchers_for_profile, get_pipeline_name,
    get_validators_for_profile, BuildSystemProfile, QaPipelineOverride,
};
use sps2_builder::artifact_qa::scanners::archive::ArchiveScanner;
use sps2_builder::artifact_qa::scanners::hardcoded::HardcodedScanner;
use sps2_builder::artifact_qa::scanners::macho::{check_macho_file, is_macho, macho_load_paths, LoadPathKind, MachOScanner};
use sps2_builder::artifact_qa::scanners::staging::StagingScanner;
use sps2_builder::artifact_qa::{PatcherAction, ValidatorAction};

const PREFIX: &str = "/opt/pm/build/zlib/1.3";

fn strings(v: &[&str]) -> Vec<String> {
    v.iter().map(|s| s.to_string()).collect()
}

#[test]
fn profiles_follow_build_systems() {
    assert_eq!(determine_profile(&vec![]), BuildSystemProfile::NativeFull);
    assert_eq!(determine_profile(&strings(&["cmake", "cargo"])), BuildSystemProfile::RustMinimal);
    assert_eq!(determine_profile(&strings(&["go", "python"])), BuildSystemProfile::GoMedium);
    assert_eq!(determine_profile(&strings(&["nodejs"])), BuildSystemProfile::ScriptLight);
    assert_eq!(determine_profile(&strings(&["autotools"])), BuildSystemProfile::NativeFull);
    assert_eq!(
        determine_profile_with_override(&strings(&["cargo"]), Some(QaPipelineOverride::C)),
        Some(BuildSystemProfile::NativeFull)
    );
    assert_eq!(determine_profile_with_override(&vec![], Some(QaPipelineOverride::Skip)), None);
    assert_eq!(
        determine_profile_with_override(&strings(&["go"]), Some(QaPipelineOverride::Auto)),
        Some(BuildSystemProfile::GoMedium)
    );
}

#[test]
fn pipelines_per_profile() {
    let names: Vec<&str> = get_validators_for_profile(BuildSystemProfile::NativeFull).iter().map(|v| v.name()).collect();
    assert_eq!(
        names,
        vec!["Staging directory scanner", "Hardcoded‑path scanner", "Mach‑O load‑command scanner", "Static‑archive scanner"]
    );
    let patchers = get_patchers_for_profile(BuildSystemProfile::NativeFull);
    assert_eq!(patchers.len(), 8);
    assert!(matches!(patchers.last(), Some(PatcherAction::CodeSigner(_))));
    assert!(get_patchers_for_profile(BuildSystemProfile::RustMinimal).is_empty());
    let script: Vec<&str> = get_patchers_for_profile(BuildSystemProfile::ScriptLight).iter().map(|p| p.name()).collect();
    assert_eq!(
        script,
        vec!["Header patcher", "pkg‑config / CMake patcher", "Python Bytecode Cleanup", "Python isolation patcher"]
    );
    assert!(!get_pipeline_name(BuildSystemProfile::GoMedium).is_empty());
}

fn failing(msg: &str) -> Report {
    let mut r = Report::ok();
    r.errors.push(msg.to_string());
    r
}

#[test]
fn rust_pipeline_runs_staging_twice() {
    let mut q = QaPipeline::start(&strings(&["cargo"]), None).unwrap();
    match q.next_step() {
        QaStep::RunValidator(ValidatorAction::StagingScanner(_)) => {}
        _ => panic!("expected the staging scanner"),
    }
    q.record(Report::ok());
    match q.next_step() {
        QaStep::RunValidator(ValidatorAction::StagingScanner(_)) => {}
        _ => panic!("expected the staging scanner again"),
    }
    q.record(Report::ok());
    assert!(matches!(q.next_step(), QaStep::Done));
    match q.outcome() {
        QaOutcome::Passed { total, passed, failed } => assert_eq!((total, passed, failed), (2, 2, 0)),
        other => panic!("unexpected {other:?}"),
    }
    assert!(QaPipeline::start(&vec![], Some(QaPipelineOverride::Skip)).is_none());
}

#[test]
fn final_validation_failure_fails_the_build() {
    let mut q = QaPipeline::start(&strings(&["cargo"]), None).unwrap();
    q.record(Report::ok());
    q.record(failing("Staging directory is empty: /s"));
    assert!(matches!(q.next_step(), QaStep::Done));
    match q.outcome() {
        QaOutcome::Failed { message } => {
            assert_eq!(message, "Relocatability check failed:\n  Staging directory is empty: /s\n")
        }
        other => panic!("unexpected {other:?}"),
    }
}

#[test]
fn findings_reach_the_patchers() {
    let mut q = QaPipeline::start(&strings(&["go"]), None).unwrap();
    let mut c = DiagnosticCollector::new();
    c.add_hardcoded_path("/s/bin/tool".to_string(), PREFIX.to_string(), false);
    q.record(Report::ok());
    q.record(HardcodedScanner::report(c));
    q.record(Report::ok());
    match q.next_step() {
        QaStep::RunPatcher(p) => assert_eq!(p.name(), "Placeholder patcher"),
        _ => panic!("expected a patcher"),
    }
    assert_eq!(q.validator_findings().map(|c| c.count()), Some(1));
}

#[test]
fn reports_merge_and_render() {
    let mut a = Report::ok();
    a.warnings.push("w1".to_string());
    let mut b = failing("e1");
    b.changed_files.push("/f".to_string());
    a.absorb(b);
    assert!(a.is_fatal());
    assert_eq!(a.changed_files, strings(&["/f"]));
    assert_eq!(a.render("QA"), "QA:\n  e1\n  (warning) w1\n");
}

#[test]
fn diagnostics_list_files_once() {
    let mut c = DiagnosticCollector::new();
    c.add_hardcoded_path("/a".to_string(), "/opt/pm/build".to_string(), false);
    c.add_hardcoded_path("/a".to_string(), PREFIX.to_string(), false);
    c.add_macho_issue("/b".to_string(), IssueType::BadRPath { rpath: "/opt/pm/build/lib".to_string() });
    assert_eq!(c.get_files_with_hardcoded_paths(), strings(&["/a"]));
    assert_eq!(c.get_files_with_macho_issues(), strings(&["/b"]));
    assert_eq!(c.count(), 3);
}

#[test]
fn binary_strings_are_found_and_replaced_in_place() {
    assert_eq!(find_binary_strings(b"abcabcab", b"abc"), vec![0, 3]);
    assert_eq!(find_binary_strings(b"aaaa", b"aa"), vec![0, 1, 2]);
    assert_eq!(find_binary_strings(b"abc", b""), Vec::<usize>::new());
    assert!(contains_bytes(b"xx/opt/pm/buildyy", b"/opt/pm/build"));

    let mut data = b"X/opt/pm/build/zlib\0\0\0Y".to_vec();
    assert!(replace_binary_string(&mut data, 1, "/opt/pm/build/zlib", "/opt/pm/live", None));
    assert_eq!(data, b"X/opt/pm/live\0\0\0\0\0\0\0\0\0Y".to_vec());

    let mut tight = b"/a\0".to_vec();
    assert!(!replace_binary_string(&mut tight, 0, "/a", "/abc", None));
    assert_eq!(tight, b"/a\0".to_vec());

    let mut file = format!("{PREFIX}/src/x.h\0 and {PREFIX}\0").into_bytes();
    let (changed, skipped) = patch_binary_data(&mut file, &binary_replacements(PREFIX));
    assert!(changed && !skipped);
    assert!(!contains_bytes(&file, PREFIX.as_bytes()));
    // The room of each occurrence is its whole C string: what followed the
    // build path there is cleared.
    assert_eq!(find_binary_strings(&file, b"/opt/pm/live"), vec![0, 36]);

    assert!(has_binary_extension("libz.so.1"));
    assert!(has_binary_extension("libz.a"));
    assert!(!has_binary_extension("notes.txt"));
    assert!(is_binary_file(Some("tool"), true));
    assert!(!is_binary_file(None, false));
}

#[test]
fn permission_rules() {
    assert!(PermissionsFixer::needs_execute_permission("/s/lib/libz.dylib", false));
    assert!(!PermissionsFixer::needs_execute_permission("/s/share/doc.txt", false));
    assert!(PermissionsFixer::needs_execute_permission_aggressive("/s/bin/tool", false, false));
    assert!(PermissionsFixer::needs_execute_permission_aggressive("/s/target/release/app", false, false));
    assert!(!PermissionsFixer::needs_execute_permission_aggressive("/s/libexec/helper", false, false));
    assert!(PermissionsFixer::needs_execute_permission_aggressive("/s/share/run.sh", false, false));
    assert!(PermissionsFixer::needs_execute_permission_aggressive("/s/share/run", true, false));
    assert!(!PermissionsFixer::needs_execute_permission_aggressive("/s/share/data", false, false));
    assert!(!PermissionsFixer::new(false).needs_fix("/s/bin/tool", false, false));
    assert!(PermissionsFixer::new(true).needs_fix("/s/bin/tool", false, false));
    assert_eq!(PermissionsFixer::fixed_mode(0o640), Some(0o750));
    assert_eq!(PermissionsFixer::fixed_mode(0o744), None);
}

#[test]
fn pkgconfig_rewrites_most_specific_first() {
    assert!(PkgConfigPatcher::is_package_file("/s/lib/pkgconfig/zlib.pc"));
    assert!(PkgConfigPatcher::is_package_file("/s/lib/cmake/ZLIBConfig.cmake"));
    assert!(!PkgConfigPatcher::is_package_file("/s/lib/libz.a"));
    let text = format!("prefix={PREFIX}\nincludedir={PREFIX}/src/include\nother=/opt/pm/build/x\n");
    assert_eq!(
        PkgConfigPatcher::rewrite(&text, PREFIX),
        Some("prefix=/opt/pm/live\nincludedir=/opt/pm/live/include\nother=/opt/pm/live/x\n".to_string())
    );
    assert_eq!(PkgConfigPatcher::rewrite("prefix=/opt/pm/live\n", PREFIX), None);
}

#[test]
fn python_leftovers() {
    assert!(PythonBytecodeCleanupPatcher::is_pycache_dir("/s/lib/pkg/__pycache__"));
    assert!(PythonBytecodeCleanupPatcher::is_bytecode_file("/s/a.pyc"));
    assert!(PythonBytecodeCleanupPatcher::is_bytecode_file("/s/a.cpython-311.PYC"));
    assert!(!PythonBytecodeCleanupPatcher::is_bytecode_file("/s/a.PYC"));
    assert!(PythonBytecodeCleanupPatcher::is_build_artifact("/s/pkg.egg-info"));
    assert!(PythonBytecodeCleanupPatcher::is_build_artifact("/s/pip-build-env-123"));
    assert!(!PythonBytecodeCleanupPatcher::is_build_artifact("/s/src"));
    assert!(PythonBytecodeCleanupPatcher::is_pip_artifact("/s/x.dist-info/direct_url.json"));
}

#[test]
fn rpath_plans() {
    let modern = RPathPatcher::new(RpathStyle::Modern);
    assert!(modern.needs_install_name_fix("/opt/pm/build/zlib/lib/libz.dylib"));
    assert!(!modern.needs_install_name_fix("@rpath/libz.dylib"));
    let absolute = RPathPatcher::new(RpathStyle::Absolute);
    assert!(absolute.needs_install_name_fix("@rpath/libz.dylib"));
    assert!(!absolute.needs_install_name_fix("@loader_path/libz.dylib"));

    let build_paths = strings(&["/opt/pm/build"]);
    let plan = modern.plan_rpaths(
        &strings(&["/opt/pm/build/zlib/lib", "/usr/lib"]),
        &strings(&["@rpath/libz.1.dylib", "/usr/lib/libSystem.B.dylib"]),
        "/opt/pm/live/lib",
        &build_paths,
    );
    assert!(plan.need_good && plan.add_rpath && plan.changed);
    assert_eq!(plan.bad_rpaths, strings(&["/opt/pm/build/zlib/lib"]));
    let settled = modern.plan_rpaths(&strings(&["/opt/pm/live/lib"]), &strings(&["/usr/lib/libc.dylib"]), "/opt/pm/live/lib", &build_paths);
    assert!(!settled.changed && !settled.add_rpath);

    assert_eq!(
        absolute.rpath_dependency_fixes(&strings(&["@rpath/libz.dylib", "/usr/lib/x"]), "/opt/pm/live/lib"),
        vec![("@rpath/libz.dylib".to_string(), "/opt/pm/live/lib/libz.dylib".to_string())]
    );
    assert!(modern.rpath_dependency_fixes(&strings(&["@rpath/libz.dylib"]), "/l").is_empty());
    assert_eq!(new_install_name("/opt/pm/live/lib", "/s/lib/libz.1.dylib"), "/opt/pm/live/lib/libz.1.dylib");
    assert!(RPathPatcher::is_dylib("/s/lib/libz.1.dylib"));
    assert!(RPathPatcher::should_process_file("/s/bin/tool", true, true));
    assert!(!RPathPatcher::should_process_file("/s/lib/libz.dylib", false, true));
}

#[test]
fn rpath_outcomes_are_tallied() {
    let headerpad = install_name_error("/s/lib/a.dylib", "error: larger updated load commands do not fit");
    assert_eq!(headerpad, "HEADERPAD_ERROR: /s/lib/a.dylib");
    assert!(is_headerpad_error(&headerpad));
    let other = install_name_error("/s/lib/b.dylib", "boom");
    assert_eq!(other, "install_name_tool failed on /s/lib/b.dylib: boom");
    assert!(!is_headerpad_error(&other));

    let mut t = RpathTally::new();
    t.record("/s/lib/a.dylib", true, false, Some(&headerpad));
    t.record("/s/lib/b.dylib", false, false, Some(&other));
    t.record("/s/bin/c", true, true, None);
    assert_eq!(t.changed, strings(&["/s/lib/a.dylib", "/s/bin/c"]));
    assert_eq!((t.rpath_fixes, t.install_name_fixes), (2, 1));
    assert_eq!(t.headerpad_errors, strings(&["/s/lib/a.dylib"]));
    assert_eq!(t.warnings, strings(&["/s/lib/b.dylib: install name fix failed"]));

    assert_eq!(fix_summary(2, 1), Some("adjusted 2 RPATHs, updated 1 install name".to_string()));
    assert_eq!(fix_summary(1, 0), Some("adjusted 1 RPATH".to_string()));
    assert_eq!(fix_summary(0, 0), None);
    assert_eq!(
        headerpad_fallback_warning(1),
        "Found 1 dylibs with headerpad errors; attempting fallback reference updates"
    );
}

#[test]
fn hardcoded_paths_are_found_in_file_contents() {
    assert_eq!(
        HardcodedScanner::find_build_path(b"..../opt/pm/build/zlib..", PREFIX),
        Some("/opt/pm/build".to_string())
    );
    assert_eq!(HardcodedScanner::find_build_path(b"/opt/pm/live", PREFIX), None);
    let mut c = DiagnosticCollector::new();
    HardcodedScanner::scan_file(&mut c, "/s/bin/tool".to_string(), b"x/opt/pm/build/y", PREFIX);
    HardcodedScanner::scan_file(&mut c, "/s/lib/m.pyc".to_string(), b"x/opt/pm/build/y", PREFIX);
    HardcodedScanner::scan_file(&mut c, "/s/share/clean".to_string(), b"nothing", PREFIX);
    assert_eq!(c.count(), 1);
    let r = HardcodedScanner::report(c);
    assert!(r.is_fatal());
    assert_eq!(r.errors.len(), 1);
    assert!(HardcodedScanner::report(DiagnosticCollector::new()).errors.is_empty());
}

fn ar_member(name: &str, body: &[u8]) -> Vec<u8> {
    let padded = (name.len() + 3) / 4 * 4;
    let mut name_bytes = name.as_bytes().to_vec();
    name_bytes.resize(padded, 0);
    let header = format!(
        "{:<16}{:<12}{:<6}{:<6}{:<8}{:<10}`\n",
        format!("#1/{padded}"),
        "0",
        "0",
        "0",
        "644",
        padded + body.len()
    );
    let mut out = header.into_bytes();
    out.extend_from_slice(&name_bytes);
    out.extend_from_slice(body);
    if out.len() % 2 == 1 {
        out.push(b'\n');
    }
    out
}

#[test]
fn archives_with_build_path_members() {
    let mut ar = b"!<arch>\n".to_vec();
    ar.extend(ar_member("ok.o", b"data"));
    ar.extend(ar_member("/opt/pm/build/zlib/1.3/src/bad.o", b"data"));
    let mut c = DiagnosticCollector::new();
    ArchiveScanner::scan_file(&mut c, "/s/lib/libz.a".to_string(), &ar, PREFIX);
    assert_eq!(c.count(), 1);
    match &c.findings()[0].issue_type {
        IssueType::BuildPathInArchive { path, member } => {
            assert_eq!(path, "/opt/pm/build");
            assert_eq!(member.as_deref(), Some("/opt/pm/build/zlib/1.3/src/bad.o"));
        }
        other => panic!("unexpected {other:?}"),
    }
    let mut none = DiagnosticCollector::new();
    ArchiveScanner::scan_file(&mut none, "/s/lib/libz.so".to_string(), &ar, PREFIX);
    ArchiveScanner::scan_file(&mut none, "/s/lib/libx.a".to_string(), b"not an archive", PREFIX);
    assert_eq!(none.count(), 0);
    assert_eq!(
        ArchiveScanner::find_bad_member(&vec![b"a.o".to_vec(), format!("{PREFIX}/b.o").into_bytes()], PREFIX),
        Some(("/opt/pm/build".to_string(), format!("{PREFIX}/b.o")))
    );
}

fn push32(v: &mut Vec<u8>, x: u32) {
    v.extend_from_slice(&x.to_le_bytes());
}

fn padded_str(s: &str, len: usize) -> Vec<u8> {
    let mut b = s.as_bytes().to_vec();
    b.resize(len, 0);
    b
}

/// A little-endian 64-bit Mach-O dylib with an `LC_RPATH` and an `LC_ID_DYLIB`.
fn thin_macho(rpath: &str, install_name: &str) -> Vec<u8> {
    let mut cmds = Vec::new();
    push32(&mut cmds, 0x8000_001c);
    push32(&mut cmds, 48);
    push32(&mut cmds, 12);
    cmds.extend(padded_str(rpath, 36));
    push32(&mut cmds, 0xd);
    push32(&mut cmds, 64);
    push32(&mut cmds, 24);
    push32(&mut cmds, 0);
    push32(&mut cmds, 0x10000);
    push32(&mut cmds, 0x10000);
    cmds.extend(padded_str(install_name, 40));
    let mut out = Vec::new();
    push32(&mut out, 0xfeed_facf);
    push32(&mut out, 0x0100_000c);
    push32(&mut out, 0);
    push32(&mut out, 6);
    push32(&mut out, 2);
    push32(&mut out, cmds.len() as u32);
    push32(&mut out, 0);
    push32(&mut out, 0);
    out.extend(cmds);
    out
}

#[test]
fn macho_load_paths_into_the_build_tree() {
    let build_paths = MachOScanner::build_paths(PREFIX);
    assert_eq!(build_paths, strings(&["/opt/pm/build", PREFIX, &format!("{PREFIX}/src")]));
    let file = "/s/lib/libz.dylib".to_string();

    let bin = thin_macho("/opt/pm/build/zlib/lib", "@rpath/libz.1.dylib");
    let mut c = DiagnosticCollector::new();
    check_macho_file(&bin, &build_paths, &file, &mut c);
    assert_eq!(c.count(), 1);
    match &c.findings()[0].issue_type {
        IssueType::BadRPath { rpath } => assert_eq!(rpath, "/opt/pm/build/zlib/lib"),
        other => panic!("unexpected {other:?}"),
    }

    let named = thin_macho("/opt/pm/live/lib", "/opt/pm/build/zlib/lib/libz.dylib");
    let mut c2 = DiagnosticCollector::new();
    check_macho_file(&named, &build_paths, &file, &mut c2);
    assert_eq!(c2.count(), 1);
    assert!(matches!(&c2.findings()[0].issue_type, IssueType::BadInstallName { .. }));

    let clean = thin_macho("/opt/pm/live/lib", "@rpath/libz.dylib");
    let mut c3 = DiagnosticCollector::new();
    check_macho_file(&clean, &build_paths, &file, &mut c3);
    check_macho_file(b"#!/bin/sh\necho hello world\n", &build_paths, &file, &mut c3);
    check_macho_file(&[0xcf, 0xfa, 0xed, 0xfe], &build_paths, &file, &mut c3);
    assert_eq!(c3.count(), 0);

    let mut fat = Vec::new();
    fat.extend_from_slice(&0xcafe_babeu32.to_be_bytes());
    fat.extend_from_slice(&1u32.to_be_bytes());
    for x in [0x0100_000cu32, 0, 64, bin.len() as u32, 3] {
        fat.extend_from_slice(&x.to_be_bytes());
    }
    fat.resize(64, 0);
    fat.extend_from_slice(&bin);
    let mut c4 = DiagnosticCollector::new();
    check_macho_file(&fat, &build_paths, &file, &mut c4);
    assert_eq!(c4.count(), 1);

    let r = MachOScanner::report(c4);
    assert_eq!(
        r.errors,
        strings(&["Mach‑O contains bad install‑name or RPATH (1 file(s)). Check warnings above for details."])
    );
}

#[test]
fn staging_directory_checks() {
    let missing = StagingScanner::report("/s", false, true);
    assert_eq!(missing.errors, strings(&["Staging directory does not exist: /s"]));
    let empty = StagingScanner::report("/s", true, true);
    assert!(empty.errors[0].starts_with("Staging directory is empty: /s. "));
    assert!(!StagingScanner::report("/s", true, false).is_fatal());
}

#[test]
fn fixing_twice_changes_nothing() {
    for mode in [0o644u32, 0o600, 0o000, 0o440, 0o100644] {
        if let Some(m) = PermissionsFixer::fixed_mode(mode) {
            let again = PermissionsFixer::fixed_mode(m);
            assert!(again.is_none() || again == Some(m));
        }
    }
    assert_eq!(PermissionsFixer::fixed_mode(0o000), Some(0o000));
}

#[test]
fn load_paths_in_command_order() {
    let bin = thin_macho("/opt/pm/live/lib", "@rpath/libz.dylib");
    assert!(is_macho(&bin));
    assert!(!is_macho(b"not a binary at all"));
    let expected = vec![
        (LoadPathKind::Rpath, b"/opt/pm/live/lib".to_vec()),
        (LoadPathKind::IdDylib, b"@rpath/libz.dylib".to_vec()),
    ];
    assert_eq!(macho_load_paths(&bin), expected);
    assert!(macho_load_paths(b"#!/bin/sh\necho hello world\n").is_empty());

    let mut fat = Vec::new();
    fat.extend_from_slice(&0xcafe_babeu32.to_be_bytes());
    fat.extend_from_slice(&2u32.to_be_bytes());
    let second = 64 + bin.len() as u32;
    for x in [0x0100_000cu32, 0, 64, bin.len() as u32, 3, 0x0100_0007, 3, second, bin.len() as u32, 3] {
        fat.extend_from_slice(&x.to_be_bytes());
    }
    fat.resize(64, 0);
    fat.extend_from_slice(&bin);
    fat.extend_from_slice(&bin);
    let both: Vec<_> = expected.iter().chain(expected.iter()).cloned().collect();
    assert_eq!(macho_load_paths(&fat), both);
}

#[test]
fn rewritten_package_files_hold_no_build_paths() {
    let text = format!("a={PREFIX}/src/x\nb={PREFIX}\nc=/opt/pm/build/other\nd=/opt/pm/buil/opt/pm/build\n");
    let out = PkgConfigPatcher::rewrite(&text, PREFIX).unwrap();
    assert!(!out.contains("/opt/pm/build"));
    assert!(!out.contains(PREFIX));
}

#[test]
fn merged_report_is_fatal_when_one_part_is() {
    let mut m = MergedReport::default();
    assert!(!m.is_fatal());
    m.absorb(Report::ok());
    let mut warned = Report::ok();
    warned.warnings.push("w".to_string());
    m.absorb(warned);
    assert!(!m.is_fatal());
    m.absorb(failing("e"));
    m.absorb(Report::ok());
    assert!(m.is_fatal());
    assert_eq!(m.render("T"), "T:\n  e\n  (warning) w\n");
}

#[test]
fn first_validation_alone_does_not_fail_the_build() {
    let mut q = QaPipeline::start(&strings(&["cargo"]), None).unwrap();
    q.record(failing("found early"));
    q.record(Report::ok());
    assert!(matches!(q.next_step(), QaStep::Done));
    match q.outcome() {
        QaOutcome::Passed { total, passed, failed } => assert_eq!((total, passed, failed), (2, 1, 1)),
        other => panic!("unexpected {other:?}"),
    }
}
