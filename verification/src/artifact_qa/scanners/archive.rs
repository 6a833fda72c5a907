//! Validator that looks into static archives (*.a) for members whose names
//! carry a build path.
use crate::artifact_qa::diagnostics::{DiagnosticCollector, IssueType, ValidationFinding};
use crate::artifact_qa::patchers::binary_string::{bytes_occur, contains_bytes};
use crate::artifact_qa::reports::Report;
use crate::artifact_qa::scanners::hardcoded::{build_base, findings_report, scan_report};
use crate::paths::{extension, extension_of};
use crate::text::{concat, eq_str, owned};
use object::read::archive::ArchiveFile;
use vstd::prelude::*;
use vstd::string::StringSliceAdditionalSpecFns;
use vstd::utf8::{decode_utf8, encode_utf8, valid_utf8};

verus! {

/// Validator that looks into static archives.
pub struct ArchiveScanner;

/// The member names that `object`'s archive reader gives for these bytes
/// (members it cannot read left out), or `None` where the bytes are not an
/// archive it can parse.
pub uninterp spec fn archive_members(bytes: Seq<u8>) -> Option<Seq<Seq<u8>>>;

/// Parses an archive with `object::read::archive::ArchiveFile::parse` and
/// lists the names of the members it yields without error.
#[verifier::external_body]
fn archive_member_names(bytes: &[u8]) -> (r: Option<Vec<Vec<u8>>>)
    ensures
        match r {
            Some(v) => archive_members(bytes@) == Some(v@.map_values(|m: Vec<u8>| m@)),
            None => archive_members(bytes@) is None,
        },
{
    match ArchiveFile::parse(bytes) {
        Ok(archive) => {
            let mut names = Vec::new();
            for member in archive.members() {
                if let Ok(member) = member {
                    names.push(member.name().to_vec());
                }
            }
            Some(names)
        },
        Err(_) => None,
    }
}

/// `std::str::from_utf8`: the text of valid UTF-8 bytes, `None` otherwise.
#[verifier::external_body]
pub(crate) fn utf8_text(bytes: &[u8]) -> (r: Option<&str>)
    ensures
        match r {
            Some(s) => valid_utf8(bytes@) && s@ == decode_utf8(bytes@),
            None => !valid_utf8(bytes@),
        },
{
    std::str::from_utf8(bytes).ok()
}

/// The build path a member name carries, looked for in this order: the
/// build root, the build prefix, the prefix's `src` directory.
pub open spec fn member_hit(name: Seq<u8>, build_prefix: Seq<char>) -> Option<Seq<char>> {
    if bytes_occur(name, encode_utf8(build_base())) {
        Some(build_base())
    } else if bytes_occur(name, encode_utf8(build_prefix)) {
        Some(build_prefix)
    } else if bytes_occur(name, encode_utf8(build_prefix + "/src"@)) {
        Some(build_prefix + "/src"@)
    } else {
        None
    }
}

/// The first member, among those whose names are valid UTF-8, that carries a
/// build path: its index and the build path.
pub open spec fn first_bad_member(names: Seq<Seq<u8>>, build_prefix: Seq<char>, k: nat) -> Option<(int, Seq<char>)>
    decreases k,
{
    if k == 0 {
        None
    } else {
        match first_bad_member(names, build_prefix, (k - 1) as nat) {
            Some(found) => Some(found),
            None => if valid_utf8(names[k - 1]) && member_hit(names[k - 1], build_prefix) is Some {
                Some((k - 1, member_hit(names[k - 1], build_prefix)->0))
            } else {
                None
            },
        }
    }
}

/// Once a bad member is found, looking further changes nothing.
proof fn lemma_first_bad_stable(names: Seq<Seq<u8>>, build_prefix: Seq<char>, j: nat, j2: nat)
    requires
        j <= j2,
        first_bad_member(names, build_prefix, j) is Some,
    ensures
        first_bad_member(names, build_prefix, j2) == first_bad_member(names, build_prefix, j),
    decreases j2,
{
    if j2 > j {
        lemma_first_bad_stable(names, build_prefix, j, (j2 - 1) as nat);
    }
}

impl ArchiveScanner {
    /// The first member whose name carries a build path: the build path and
    /// the member's name.
    pub fn find_bad_member(names: &Vec<Vec<u8>>, build_prefix: &str) -> (r: Option<(String, String)>)
        ensures
            ({
                let ns = names@.map_values(|m: Vec<u8>| m@);
                match first_bad_member(ns, build_prefix@, ns.len()) {
                    Some((i, bp)) => r matches Some((p, m)) && p@ == bp && m@ == decode_utf8(ns[i]),
                    None => r is None,
                }
            }),
    {
        let ghost ns = names@.map_values(|m: Vec<u8>| m@);
        let src = concat(build_prefix, "/src");
        let base = "/opt/pm/build";
        for k in 0..names.len()
            invariant
                ns == names@.map_values(|m: Vec<u8>| m@),
                src@ == build_prefix@ + "/src"@,
                base@ == build_base(),
                first_bad_member(ns, build_prefix@, k as nat) is None,
        {
            let name = names[k].as_slice();
            assert(ns[k as int] == name@);
            match utf8_text(name) {
                Some(text) => {
                    let hit = if contains_bytes(name, base.as_bytes()) {
                        Some(owned(base))
                    } else if contains_bytes(name, build_prefix.as_bytes()) {
                        Some(owned(build_prefix))
                    } else if contains_bytes(name, src.as_str().as_bytes()) {
                        Some(src.clone())
                    } else {
                        None
                    };
                    match hit {
                        Some(bp) => {
                            proof {
                                assert(first_bad_member(ns, build_prefix@, (k + 1) as nat) == Some((k as int, bp@)));
                                lemma_first_bad_stable(ns, build_prefix@, (k + 1) as nat, ns.len());
                            }
                            return Some((bp, owned(text)));
                        },
                        None => {},
                    }
                },
                None => {},
            }
        }
        None
    }

    /// Scans one staged file (its path and contents): where it is a static
    /// archive (extension `a`) that `object` can read, records the first
    /// member whose name carries a build path.
    pub fn scan_file(collector: &mut DiagnosticCollector, path: String, data: &[u8], build_prefix: &str)
        ensures
            ({
                let found = match archive_members(data@) {
                    Some(ns) => first_bad_member(ns, build_prefix@, ns.len()),
                    None => None,
                };
                if extension_of(path@) == Some("a"@) && found is Some {
                    &&& final(collector)@.len() == old(collector)@.len() + 1
                    &&& final(collector)@.take(old(collector)@.len() as int) == old(collector)@
                    &&& final(collector)@.last().file_path == path
                    &&& found matches Some((i, bp))
                    &&& final(collector)@.last().issue_type matches IssueType::BuildPathInArchive { path: p, member: Some(m) }
                        && p@ == bp && m@ == decode_utf8(archive_members(data@)->0[i])
                } else {
                    final(collector)@ == old(collector)@
                }
            }),
    {
        let is_archive = match extension(path.as_str()) {
            Some(e) => eq_str(e.as_slice(), "a"),
            None => false,
        };
        if !is_archive {
            return;
        }
        match archive_member_names(data) {
            Some(names) => {
                match Self::find_bad_member(&names, build_prefix) {
                    Some((bp, member)) => {
                        collector.add_finding(
                            ValidationFinding {
                                file_path: path,
                                issue_type: IssueType::BuildPathInArchive { path: bp, member: Some(member) },
                            },
                        );
                        assert(collector@.take(old(collector)@.len() as int) =~= old(collector)@);
                    },
                    None => {},
                }
            },
            None => {},
        }
    }

    /// The scanner's report once every file was scanned.
    pub fn report(collector: DiagnosticCollector) -> (r: Report)
        ensures
            scan_report(
                r,
                collector@,
                "Static archives contain build paths ("@,
                " file(s)). Check warnings above for details."@,
            ),
    {
        findings_report(collector, "Static archives contain build paths (", " file(s)). Check warnings above for details.")
    }
}

} // verus!
