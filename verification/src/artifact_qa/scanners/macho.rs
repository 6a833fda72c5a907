//! Validator that inspects Mach-O load commands for build paths: install
//! names and RPATHs that point into the build tree.
use crate::artifact_qa::diagnostics::{DiagnosticCollector, IssueType, ValidationFinding};
use crate::artifact_qa::reports::Report;
use crate::artifact_qa::scanners::archive::utf8_text;
use crate::artifact_qa::scanners::hardcoded::{findings_report, scan_report};
use crate::text::{starts_with, string_views, to_chars};
use object::read::macho::{FatArch, LoadCommandVariant, MachOFatFile32, MachOFatFile64, MachOFile32, MachOFile64};
use object::Endianness;
use vstd::prelude::*;
use vstd::utf8::{decode_utf8, valid_utf8};

verus! {

/// Validator that inspects Mach-O load commands for build paths.
pub struct MachOScanner;

/// The Mach-O layouts a file can have.
#[derive(Clone, Copy, Debug, PartialEq, Eq, Structural)]
pub enum MachKind {
    Thin32,
    Thin64,
    Fat32,
    Fat64,
    NotMachO,
}

/// The Mach-O layout of a file, by its magic number: at least sixteen bytes,
/// beginning with a 32-bit or 64-bit header magic in either byte order, or a
/// 32-bit or 64-bit universal header magic.
pub open spec fn mach_kind_of(d: Seq<u8>) -> MachKind {
    if d.len() < 16 {
        MachKind::NotMachO
    } else if (d[0] == 0xfe && d[1] == 0xed && d[2] == 0xfa && d[3] == 0xce) || (d[0] == 0xce && d[1] == 0xfa
        && d[2] == 0xed && d[3] == 0xfe) {
        MachKind::Thin32
    } else if (d[0] == 0xfe && d[1] == 0xed && d[2] == 0xfa && d[3] == 0xcf) || (d[0] == 0xcf && d[1] == 0xfa
        && d[2] == 0xed && d[3] == 0xfe) {
        MachKind::Thin64
    } else if d[0] == 0xca && d[1] == 0xfe && d[2] == 0xba && d[3] == 0xbe {
        MachKind::Fat32
    } else if d[0] == 0xca && d[1] == 0xfe && d[2] == 0xba && d[3] == 0xbf {
        MachKind::Fat64
    } else {
        MachKind::NotMachO
    }
}

/// `object::FileKind::parse`, read for the Mach-O kinds: its source decides
/// them by the sixteen-byte minimum and the first four bytes, as
/// `mach_kind_of` states; every other outcome is `NotMachO`.
#[verifier::external_body]
fn mach_kind(data: &[u8]) -> (r: MachKind)
    ensures
        r == mach_kind_of(data@),
{
    match object::FileKind::parse(data) {
        Ok(object::FileKind::MachO32) => MachKind::Thin32,
        Ok(object::FileKind::MachO64) => MachKind::Thin64,
        Ok(object::FileKind::MachOFat32) => MachKind::Fat32,
        Ok(object::FileKind::MachOFat64) => MachKind::Fat64,
        _ => MachKind::NotMachO,
    }
}

/// The offset and size of each architecture that `object`'s 32-bit
/// universal-file reader lists for the data, or nothing where it cannot read
/// the header.
pub uninterp spec fn fat_arch_ranges32(data: Seq<u8>) -> Option<Seq<(u64, u64)>>;

/// The same as `fat_arch_ranges32`, for the 64-bit universal-file reader.
pub uninterp spec fn fat_arch_ranges64(data: Seq<u8>) -> Option<Seq<(u64, u64)>>;

/// The architecture ranges of a universal file.
pub open spec fn fat_arch_ranges(data: Seq<u8>, wide: bool) -> Option<Seq<(u64, u64)>> {
    if wide { fat_arch_ranges64(data) } else { fat_arch_ranges32(data) }
}

/// `object::read::macho::MachOFatFile32::parse` and the `file_range` of each
/// arch it lists; the contract names the result.
#[verifier::external_body]
fn fat_arches32(data: &[u8]) -> (r: Option<Vec<(u64, u64)>>)
    ensures
        match r {
            Some(v) => fat_arch_ranges32(data@) == Some(v@),
            None => fat_arch_ranges32(data@) is None,
        },
{
    let fat = MachOFatFile32::parse(data).ok()?;
    let mut v = Vec::new();
    for a in fat.arches() {
        v.push(a.file_range());
    }
    Some(v)
}

/// `object::read::macho::MachOFatFile64::parse` and the `file_range` of each
/// arch it lists; the contract names the result.
#[verifier::external_body]
fn fat_arches64(data: &[u8]) -> (r: Option<Vec<(u64, u64)>>)
    ensures
        match r {
            Some(v) => fat_arch_ranges64(data@) == Some(v@),
            None => fat_arch_ranges64(data@) is None,
        },
{
    let fat = MachOFatFile64::parse(data).ok()?;
    let mut v = Vec::new();
    for a in fat.arches() {
        v.push(a.file_range());
    }
    Some(v)
}

/// The load commands that name a path.
#[derive(Clone, Copy, Debug, PartialEq, Eq, Structural)]
pub enum LoadPathKind {
    /// A library the binary loads
    Dylib,
    /// The library's own install name
    IdDylib,
    /// A run-time search path
    Rpath,
}

/// The paths of the `LC_*_DYLIB`, `LC_ID_DYLIB` and `LC_RPATH` commands that
/// `object`'s 32-bit Mach-O reader yields for the data, in order, as raw
/// bytes; reading stops at the first command it cannot read, and a path it
/// cannot read is left out. Nothing where the file cannot be read at all.
pub uninterp spec fn load_command_paths32(data: Seq<u8>) -> Option<Seq<(LoadPathKind, Seq<u8>)>>;

/// The same as `load_command_paths32`, for `object`'s 64-bit Mach-O reader.
pub uninterp spec fn load_command_paths64(data: Seq<u8>) -> Option<Seq<(LoadPathKind, Seq<u8>)>>;

/// The named load paths of a thin Mach-O file.
pub open spec fn load_command_paths(data: Seq<u8>, wide: bool) -> Option<Seq<(LoadPathKind, Seq<u8>)>> {
    if wide { load_command_paths64(data) } else { load_command_paths32(data) }
}

/// The views of load paths.
pub open spec fn load_path_views(v: Seq<(LoadPathKind, Vec<u8>)>) -> Seq<(LoadPathKind, Seq<u8>)> {
    v.map_values(|p: (LoadPathKind, Vec<u8>)| (p.0, p.1@))
}

/// `object::read::macho::MachOFile32::parse` and its load-command iterator,
/// keeping the path strings of dylib, id-dylib and rpath commands; the
/// contract names the result.
#[verifier::external_body]
fn load_paths32(data: &[u8]) -> (r: Option<Vec<(LoadPathKind, Vec<u8>)>>)
    ensures
        match r {
            Some(v) => load_command_paths32(data@) == Some(load_path_views(v@)),
            None => load_command_paths32(data@) is None,
        },
{
    let f = MachOFile32::<Endianness>::parse(data).ok()?;
    let (e, mut out) = (f.endian(), Vec::new());
    let mut cmds = f.macho_load_commands().ok()?;
    while let Ok(Some(c)) = cmds.next() {
        let (k, s) = match c.variant() {
            Ok(LoadCommandVariant::Dylib(d)) => (LoadPathKind::Dylib, d.dylib.name),
            Ok(LoadCommandVariant::IdDylib(d)) => (LoadPathKind::IdDylib, d.dylib.name),
            Ok(LoadCommandVariant::Rpath(r)) => (LoadPathKind::Rpath, r.path),
            _ => continue,
        };
        if let Ok(b) = c.string(e, s) {
            out.push((k, b.to_vec()));
        }
    }
    Some(out)
}

/// `object::read::macho::MachOFile64::parse` and its load-command iterator,
/// keeping the path strings of dylib, id-dylib and rpath commands; the
/// contract names the result.
#[verifier::external_body]
fn load_paths64(data: &[u8]) -> (r: Option<Vec<(LoadPathKind, Vec<u8>)>>)
    ensures
        match r {
            Some(v) => load_command_paths64(data@) == Some(load_path_views(v@)),
            None => load_command_paths64(data@) is None,
        },
{
    let f = MachOFile64::<Endianness>::parse(data).ok()?;
    let (e, mut out) = (f.endian(), Vec::new());
    let mut cmds = f.macho_load_commands().ok()?;
    while let Ok(Some(c)) = cmds.next() {
        let (k, s) = match c.variant() {
            Ok(LoadCommandVariant::Dylib(d)) => (LoadPathKind::Dylib, d.dylib.name),
            Ok(LoadCommandVariant::IdDylib(d)) => (LoadPathKind::IdDylib, d.dylib.name),
            Ok(LoadCommandVariant::Rpath(r)) => (LoadPathKind::Rpath, r.path),
            _ => continue,
        };
        if let Ok(b) = c.string(e, s) {
            out.push((k, b.to_vec()));
        }
    }
    Some(out)
}

/// A finding about a Mach-O path, as its file, whether it is an RPATH, and
/// the path.
pub open spec fn macho_key(f: ValidationFinding) -> (Seq<char>, bool, Seq<char>) {
    match f.issue_type {
        IssueType::BadRPath { rpath } => (f.file_path@, true, rpath@),
        IssueType::BadInstallName { install_name } => (f.file_path@, false, install_name@),
        _ => (f.file_path@, false, Seq::empty()),
    }
}

/// Whether a finding is about a Mach-O path.
pub open spec fn is_macho_finding(f: ValidationFinding) -> bool {
    f.issue_type is BadRPath || f.issue_type is BadInstallName
}

/// Whether a path begins with one of the build paths.
pub open spec fn starts_with_any(s: Seq<char>, bps: Seq<Seq<char>>) -> bool {
    exists|i: int| 0 <= i < bps.len() && starts_with(s, #[trigger] bps[i])
}

/// The findings of the load-command paths: each valid UTF-8 path that
/// begins with a build path, as a bad RPATH or a bad install name.
pub open spec fn load_findings(
    paths: Seq<(LoadPathKind, Seq<u8>)>,
    bps: Seq<Seq<char>>,
    file: Seq<char>,
) -> Seq<(Seq<char>, bool, Seq<char>)>
    decreases paths.len(),
{
    if paths.len() == 0 {
        Seq::empty()
    } else {
        let rest = load_findings(paths.drop_last(), bps, file);
        let (kind, bytes) = paths.last();
        if valid_utf8(bytes) && starts_with_any(decode_utf8(bytes), bps) {
            rest.push((file, kind == LoadPathKind::Rpath, decode_utf8(bytes)))
        } else {
            rest
        }
    }
}

/// Whether an architecture's range is a readable part of the data, smaller
/// than the whole.
pub open spec fn arch_slice_ok(data: Seq<u8>, off: u64, size: u64) -> bool {
    off <= usize::MAX && size <= usize::MAX && off + size <= usize::MAX && off + size <= data.len() && size < data.len()
}

/// The findings of a Mach-O file: those of its load commands, or, for a
/// universal file, those of each architecture in turn.
pub open spec fn macho_findings(data: Seq<u8>, bps: Seq<Seq<char>>, file: Seq<char>) -> Seq<(Seq<char>, bool, Seq<char>)>
    decreases data.len() + 1, 0nat,
{
    match mach_kind_of(data) {
        MachKind::Thin32 => match load_command_paths(data, false) {
            Some(ps) => load_findings(ps, bps, file),
            None => Seq::empty(),
        },
        MachKind::Thin64 => match load_command_paths(data, true) {
            Some(ps) => load_findings(ps, bps, file),
            None => Seq::empty(),
        },
        MachKind::Fat32 => match fat_arch_ranges(data, false) {
            Some(rs) => arch_findings(data, rs, rs.len(), bps, file),
            None => Seq::empty(),
        },
        MachKind::Fat64 => match fat_arch_ranges(data, true) {
            Some(rs) => arch_findings(data, rs, rs.len(), bps, file),
            None => Seq::empty(),
        },
        MachKind::NotMachO => Seq::empty(),
    }
}

/// The findings of the first `k` architectures of a universal file.
pub open spec fn arch_findings(
    data: Seq<u8>,
    rs: Seq<(u64, u64)>,
    k: nat,
    bps: Seq<Seq<char>>,
    file: Seq<char>,
) -> Seq<(Seq<char>, bool, Seq<char>)>
    decreases data.len(), k,
{
    if k == 0 || k > rs.len() {
        Seq::empty()
    } else {
        let rest = arch_findings(data, rs, (k - 1) as nat, bps, file);
        let (off, size) = rs[k - 1];
        if arch_slice_ok(data, off, size) {
            rest + macho_findings(data.subrange(off as int, off + size), bps, file)
        } else {
            rest
        }
    }
}

/// `after` is `before` followed by Mach-O findings whose keys are `keys`.
pub open spec fn appended_macho(before: Seq<ValidationFinding>, after: Seq<ValidationFinding>, keys: Seq<(Seq<char>, bool, Seq<char>)>) -> bool {
    &&& after.len() == before.len() + keys.len()
    &&& after.take(before.len() as int) == before
    &&& forall|i: int| 0 <= i < keys.len() ==> is_macho_finding(#[trigger] after[before.len() + i])
        && macho_key(after[before.len() + i]) == keys[i]
}

fn starts_with_any_exec(s: &[char], bps: &Vec<String>) -> (r: bool)
    ensures
        r == starts_with_any(s@, string_views(bps@)),
{
    for i in 0..bps.len()
        invariant
            forall|j: int| 0 <= j < i ==> !starts_with(s@, #[trigger] string_views(bps@)[j]),
    {
        let b = to_chars(bps[i].as_str());
        if crate::text::starts_with_exec(s, b.as_slice()) {
            assert(starts_with(s@, string_views(bps@)[i as int]));
            return true;
        }
    }
    false
}

/// Records the findings of load-command paths.
pub fn check_load_paths(
    paths: &Vec<(LoadPathKind, Vec<u8>)>,
    build_paths: &Vec<String>,
    file_path: &String,
    collector: &mut DiagnosticCollector,
)
    ensures
        appended_macho(
            old(collector)@,
            final(collector)@,
            load_findings(load_path_views(paths@), string_views(build_paths@), file_path@),
        ),
{
    let ghost ps = paths@.map_values(|p: (LoadPathKind, Vec<u8>)| (p.0, p.1@));
    let ghost bps = string_views(build_paths@);
    let ghost start = collector@;
    assert(collector@.take(start.len() as int) =~= start);
    assert(ps.take(0) =~= Seq::<(LoadPathKind, Seq<u8>)>::empty());
    for i in 0..paths.len()
        invariant
            ps == paths@.map_values(|p: (LoadPathKind, Vec<u8>)| (p.0, p.1@)),
            bps == string_views(build_paths@),
            appended_macho(start, collector@, load_findings(ps.take(i as int), bps, file_path@)),
            ps == load_path_views(paths@),
    {
        let ghost t = ps.take(i + 1);
        assert(t.drop_last() =~= ps.take(i as int));
        assert(t.last() == (paths@[i as int].0, paths@[i as int].1@));
        let ghost before = collector@;
        let ghost keys = load_findings(ps.take(i as int), bps, file_path@);
        match utf8_text(paths[i].1.as_slice()) {
            Some(s) => {
                let sv = to_chars(s);
                if starts_with_any_exec(sv.as_slice(), build_paths) {
                    let text = s.to_string();
                    let issue = if paths[i].0 == LoadPathKind::Rpath {
                        IssueType::BadRPath { rpath: text }
                    } else {
                        IssueType::BadInstallName { install_name: text }
                    };
                    collector.add_macho_issue(file_path.clone(), issue);
                    assert(collector@.take(start.len() as int) =~= start) by {
                        assert(before.take(start.len() as int) == start);
                    }
                    assert forall|j: int| 0 <= j < keys.len() + 1 implies is_macho_finding(#[trigger] collector@[start.len() + j])
                        && macho_key(collector@[start.len() + j]) == load_findings(t, bps, file_path@)[j] by {
                        if j < keys.len() {
                            assert(collector@[start.len() + j] == before[start.len() + j]);
                        }
                    }
                }
            },
            None => {},
        }
    }
    assert(ps.take(ps.len() as int) =~= ps);
}

/// Records the findings of one file: the bad install names and RPATHs of
/// its load commands, through every architecture of a universal file. An
/// architecture whose range is unreadable, or the whole file, is skipped.
pub fn check_macho_file(data: &[u8], build_paths: &Vec<String>, file_path: &String, collector: &mut DiagnosticCollector)
    ensures
        appended_macho(old(collector)@, final(collector)@, macho_findings(data@, string_views(build_paths@), file_path@)),
    decreases data@.len() + 1, 0nat,
{
    match mach_kind(data) {
        MachKind::Thin32 => {
            match load_paths32(data) {
                Some(ps) => check_load_paths(&ps, build_paths, file_path, collector),
                None => {
                    assert(collector@.take(collector@.len() as int) =~= collector@);
                },
            }
        },
        MachKind::Thin64 => {
            match load_paths64(data) {
                Some(ps) => check_load_paths(&ps, build_paths, file_path, collector),
                None => {
                    assert(collector@.take(collector@.len() as int) =~= collector@);
                },
            }
        },
        MachKind::Fat32 => {
            match fat_arches32(data) {
                Some(rs) => check_arches(data, &rs, build_paths, file_path, collector),
                None => {
                    assert(collector@.take(collector@.len() as int) =~= collector@);
                },
            }
        },
        MachKind::Fat64 => {
            match fat_arches64(data) {
                Some(rs) => check_arches(data, &rs, build_paths, file_path, collector),
                None => {
                    assert(collector@.take(collector@.len() as int) =~= collector@);
                },
            }
        },
        MachKind::NotMachO => {
            assert(collector@.take(collector@.len() as int) =~= collector@);
        },
    }
}

/// Records the findings of each architecture of a universal file.
fn check_arches(
    data: &[u8],
    rs: &Vec<(u64, u64)>,
    build_paths: &Vec<String>,
    file_path: &String,
    collector: &mut DiagnosticCollector,
)
    ensures
        appended_macho(
            old(collector)@,
            final(collector)@,
            arch_findings(data@, rs@, rs@.len(), string_views(build_paths@), file_path@),
        ),
    decreases data@.len(), rs@.len(),
{
    let ghost bps = string_views(build_paths@);
    let ghost start = collector@;
    assert(collector@.take(start.len() as int) =~= start);
    let mut i: usize = 0;
    while i < rs.len()
        invariant
            i <= rs@.len(),
            bps == string_views(build_paths@),
            appended_macho(start, collector@, arch_findings(data@, rs@, i as nat, bps, file_path@)),
        decreases rs@.len() - i,
    {
        let (off, size) = rs[i];
        let ghost before = collector@;
        let ghost keys = arch_findings(data@, rs@, i as nat, bps, file_path@);
        if off <= usize::MAX as u64 && size <= usize::MAX as u64 {
            let start_u = off as usize;
            let size_u = size as usize;
            if start_u <= usize::MAX - size_u {
                let end = start_u + size_u;
                if end <= data.len() && size_u < data.len() {
                    let slice = &data[start_u..end];
                    assert(slice@ == data@.subrange(off as int, off + size));
                    let ghost sub = macho_findings(slice@, bps, file_path@);
                    check_macho_file(slice, build_paths, file_path, collector);
                    proof {
                        assert(collector@.take(start.len() as int) =~= start) by {
                            assert(collector@.take(before.len() as int) == before);
                            assert(before.take(start.len() as int) == start);
                            assert(collector@.take(start.len() as int) =~= before.take(start.len() as int));
                        }
                        assert forall|j: int| 0 <= j < keys.len() + sub.len() implies is_macho_finding(#[trigger] collector@[start.len() + j])
                            && macho_key(collector@[start.len() + j]) == (keys + sub)[j] by {
                            if j < keys.len() {
                                assert(collector@[start.len() + j] == before[start.len() + j]);
                            } else {
                                let jj = j - keys.len();
                                assert(collector@[before.len() + jj] == collector@[start.len() + j]);
                            }
                        }
                    }
                }
            }
        }
        i = i + 1;
    }
}

impl MachOScanner {
    /// The build paths that no install name or RPATH may begin with: the
    /// build root, the package's build prefix, and its `src` directory.
    pub fn build_paths(build_prefix: &str) -> (r: Vec<String>)
        ensures
            string_views(r@) == seq!["/opt/pm/build"@, build_prefix@, build_prefix@ + "/src"@],
    {
        let mut r: Vec<String> = Vec::new();
        r.push(crate::text::owned("/opt/pm/build"));
        r.push(crate::text::owned(build_prefix));
        r.push(crate::text::concat(build_prefix, "/src"));
        assert(string_views(r@) =~= seq!["/opt/pm/build"@, build_prefix@, build_prefix@ + "/src"@]);
        r
    }

    /// The scanner's report once every file was checked.
    pub fn report(collector: DiagnosticCollector) -> (r: Report)
        ensures
            scan_report(
                r,
                collector@,
                "Mach‑O contains bad install‑name or RPATH ("@,
                " file(s)). Check warnings above for details."@,
            ),
    {
        findings_report(
            collector,
            "Mach‑O contains bad install‑name or RPATH (",
            " file(s)). Check warnings above for details.",
        )
    }
}

/// Whether a file's contents are Mach-O, thin or universal.
pub fn is_macho(data: &[u8]) -> (r: bool)
    ensures
        r == (mach_kind_of(data@) != MachKind::NotMachO),
{
    match mach_kind(data) {
        MachKind::NotMachO => false,
        _ => true,
    }
}


/// The named load paths of a Mach-O file: those of its load commands, or,
/// for a universal file, those of each readable architecture in turn.
pub open spec fn all_load_paths(data: Seq<u8>) -> Seq<(LoadPathKind, Seq<u8>)>
    decreases data.len() + 1, 0nat,
{
    match mach_kind_of(data) {
        MachKind::Thin32 => match load_command_paths(data, false) {
            Some(ps) => ps,
            None => Seq::empty(),
        },
        MachKind::Thin64 => match load_command_paths(data, true) {
            Some(ps) => ps,
            None => Seq::empty(),
        },
        MachKind::Fat32 => match fat_arch_ranges(data, false) {
            Some(rs) => arch_load_paths(data, rs, rs.len()),
            None => Seq::empty(),
        },
        MachKind::Fat64 => match fat_arch_ranges(data, true) {
            Some(rs) => arch_load_paths(data, rs, rs.len()),
            None => Seq::empty(),
        },
        MachKind::NotMachO => Seq::empty(),
    }
}

/// The named load paths of the first `k` architectures of a universal file.
pub open spec fn arch_load_paths(data: Seq<u8>, rs: Seq<(u64, u64)>, k: nat) -> Seq<(LoadPathKind, Seq<u8>)>
    decreases data.len(), k,
{
    if k == 0 || k > rs.len() {
        Seq::empty()
    } else {
        let rest = arch_load_paths(data, rs, (k - 1) as nat);
        let (off, size) = rs[k - 1];
        if arch_slice_ok(data, off, size) {
            rest + all_load_paths(data.subrange(off as int, off + size))
        } else {
            rest
        }
    }
}

/// The dylib, install-name and RPATH paths of a Mach-O file, in the order of
/// its load commands, through every architecture of a universal file in
/// turn; nothing for another file.
pub fn macho_load_paths(data: &[u8]) -> (r: Vec<(LoadPathKind, Vec<u8>)>)
    ensures
        load_path_views(r@) == all_load_paths(data@),
    decreases data@.len() + 1, 0nat,
{
    let none: Vec<(LoadPathKind, Vec<u8>)> = Vec::new();
    assert(load_path_views(none@) =~= Seq::<(LoadPathKind, Seq<u8>)>::empty());
    match mach_kind(data) {
        MachKind::Thin32 => match load_paths32(data) {
            Some(ps) => ps,
            None => none,
        },
        MachKind::Thin64 => match load_paths64(data) {
            Some(ps) => ps,
            None => none,
        },
        MachKind::Fat32 => match fat_arches32(data) {
            Some(rs) => arch_paths(data, &rs),
            None => none,
        },
        MachKind::Fat64 => match fat_arches64(data) {
            Some(rs) => arch_paths(data, &rs),
            None => none,
        },
        MachKind::NotMachO => none,
    }
}

/// The load paths of each architecture of a universal file, in turn.
fn arch_paths(data: &[u8], rs: &Vec<(u64, u64)>) -> (r: Vec<(LoadPathKind, Vec<u8>)>)
    ensures
        load_path_views(r@) == arch_load_paths(data@, rs@, rs@.len()),
    decreases data@.len(), rs@.len(),
{
    let mut out: Vec<(LoadPathKind, Vec<u8>)> = Vec::new();
    assert(load_path_views(out@) =~= arch_load_paths(data@, rs@, 0));
    let mut i: usize = 0;
    while i < rs.len()
        invariant
            i <= rs@.len(),
            load_path_views(out@) == arch_load_paths(data@, rs@, i as nat),
        decreases rs@.len() - i,
    {
        let (off, size) = rs[i];
        if off <= usize::MAX as u64 && size <= usize::MAX as u64 {
            let start_u = off as usize;
            let size_u = size as usize;
            if start_u <= usize::MAX - size_u {
                let end = start_u + size_u;
                if end <= data.len() && size_u < data.len() {
                    let slice = &data[start_u..end];
                    assert(slice@ == data@.subrange(off as int, off + size));
                    let mut sub = macho_load_paths(slice);
                    let ghost prev = out@;
                    let ghost sv = sub@;
                    out.append(&mut sub);
                    assert(load_path_views(out@) =~= load_path_views(prev) + load_path_views(sv));
                }
            }
        }
        i = i + 1;
    }
    out
}

} // verus!
