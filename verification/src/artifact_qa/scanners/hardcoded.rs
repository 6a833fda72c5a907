//! Validator that searches every byte of staged files for build paths.
use crate::artifact_qa::diagnostics::{DiagnosticCollector, IssueType, ValidationFinding};
use crate::artifact_qa::patchers::binary_string::{bytes_at, bytes_occur};
use crate::artifact_qa::reports::{findings_of, Report};
use crate::paths::{extension, extension_of};
use crate::text::{concat, decimal, eq_str, owned, usize_to_string};
use bstr::ByteSlice;
use vstd::prelude::*;
use vstd::string::StringSliceAdditionalSpecFns;
use vstd::utf8::encode_utf8;

verus! {

/// Validator that searches every byte of staged files for build paths.
pub struct HardcodedScanner;

/// The build root that every build prefix lies under.
pub open spec fn build_base() -> Seq<char> {
    "/opt/pm/build"@
}

/// `bstr`'s `ByteSlice::find`: the index of the first occurrence of
/// `needle` in `haystack`, or `None` where it does not occur.
#[verifier::external_body]
fn find_bytes(haystack: &[u8], needle: &[u8]) -> (r: Option<usize>)
    ensures
        match r {
            Some(i) => bytes_at(haystack@, needle@, i as int) && forall|j: int|
                0 <= j < i ==> !bytes_at(haystack@, needle@, j),
            None => !bytes_occur(haystack@, needle@),
        },
{
    haystack.find(needle)
}

/// The build path a file's bytes hold, looked for in this order: the build
/// root, the build prefix, the prefix's `src` directory.
pub open spec fn hardcoded_hit(data: Seq<u8>, build_prefix: Seq<char>) -> Option<Seq<char>> {
    if bytes_occur(data, encode_utf8(build_base())) {
        Some(build_base())
    } else if bytes_occur(data, encode_utf8(build_prefix)) {
        Some(build_prefix)
    } else if bytes_occur(data, encode_utf8(build_prefix + "/src"@)) {
        Some(build_prefix + "/src"@)
    } else {
        None
    }
}

/// Python bytecode is regenerated at run time and never scanned.
pub open spec fn is_bytecode_path(p: Seq<char>) -> bool {
    extension_of(p) == Some("pyc"@) || extension_of(p) == Some("pyo"@)
}

/// The report of a scan: an error naming the number of files with build
/// paths, the findings attached; empty where nothing was found.
pub open spec fn scan_report(r: Report, findings: Seq<ValidationFinding>, message_head: Seq<char>, message_tail: Seq<char>) -> bool {
    if findings.len() > 0 {
        &&& r.errors@.len() == 1
        &&& r.errors@[0]@ == message_head + decimal(findings.len()) + message_tail
        &&& r.warnings@.len() == 0
        &&& r.changed_files@.len() == 0
        &&& findings_of(r.findings) == Some(findings)
    } else {
        crate::artifact_qa::reports::is_empty_report(r)
    }
}

/// A report for a collector: one error with the count where it holds
/// findings, an empty report where it holds none.
pub fn findings_report(collector: DiagnosticCollector, head: &str, tail: &str) -> (r: Report)
    ensures
        scan_report(r, collector@, head@, tail@),
{
    if collector.has_findings() {
        let n = usize_to_string(collector.count());
        let msg = concat(concat(head, n.as_str()).as_str(), tail);
        let mut errors: Vec<String> = Vec::new();
        errors.push(msg);
        Report { changed_files: Vec::new(), warnings: Vec::new(), errors, findings: Some(collector) }
    } else {
        Report::ok()
    }
}

/// `after` is `before` with one more finding: a build path `bp` in `file`.
pub open spec fn recorded_hardcoded(before: Seq<ValidationFinding>, after: Seq<ValidationFinding>, file: String, bp: Seq<char>) -> bool {
    &&& after.len() == before.len() + 1
    &&& after.take(before.len() as int) == before
    &&& after.last().file_path == file
    &&& after.last().issue_type matches IssueType::HardcodedBuildPath { path, is_placeholder } && path@ == bp && !is_placeholder
}

impl HardcodedScanner {
    /// The build path a file's contents hold, if any.
    pub fn find_build_path(data: &[u8], build_prefix: &str) -> (r: Option<String>)
        ensures
            match r {
                Some(p) => hardcoded_hit(data@, build_prefix@) == Some(p@),
                None => hardcoded_hit(data@, build_prefix@) is None,
            },
    {
        let base = "/opt/pm/build";
        let src = concat(build_prefix, "/src");
        if find_bytes(data, base.as_bytes()).is_some() {
            Some(owned(base))
        } else if find_bytes(data, build_prefix.as_bytes()).is_some() {
            Some(owned(build_prefix))
        } else if find_bytes(data, src.as_str().as_bytes()).is_some() {
            Some(src)
        } else {
            None
        }
    }

    /// Scans one staged file (its path and contents): records the build path
    /// it holds, unless it is Python bytecode.
    pub fn scan_file(collector: &mut DiagnosticCollector, path: String, data: &[u8], build_prefix: &str)
        ensures
            is_bytecode_path(path@) || hardcoded_hit(data@, build_prefix@) is None ==> final(collector)@ == old(collector)@,
            !is_bytecode_path(path@) ==> match hardcoded_hit(data@, build_prefix@) {
                Some(bp) => recorded_hardcoded(old(collector)@, final(collector)@, path, bp),
                None => true,
            },
    {
        match extension(path.as_str()) {
            Some(e) => {
                if eq_str(e.as_slice(), "pyc") || eq_str(e.as_slice(), "pyo") {
                    return;
                }
            },
            None => {},
        }
        match Self::find_build_path(data, build_prefix) {
            Some(bp) => {
                collector.add_hardcoded_path(path, bp, false);
                assert(collector@.take(old(collector)@.len() as int) =~= old(collector)@);
            },
            None => {},
        }
    }

    /// The scanner's report once every file was scanned.
    pub fn report(collector: DiagnosticCollector) -> (r: Report)
        ensures
            scan_report(
                r,
                collector@,
                "Hardcoded path(s) found in "@,
                " file(s). Check warnings above for details."@,
            ),
    {
        findings_report(collector, "Hardcoded path(s) found in ", " file(s). Check warnings above for details.")
    }
}

} // verus!
