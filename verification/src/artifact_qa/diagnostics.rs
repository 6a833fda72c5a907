//! Findings that the scanners collect and hand on to the patchers.
use vstd::prelude::*;

verus! {

/// What a finding is about.
#[derive(Clone, Debug)]
pub enum IssueType {
    /// A build path (or the placeholder prefix) embedded in a file.
    HardcodedBuildPath { path: String, is_placeholder: bool },
    /// A static archive whose member names carry a build path.
    BuildPathInArchive { path: String, member: Option<String> },
    /// A Mach-O RPATH that points into the build tree.
    BadRPath { rpath: String },
    /// A Mach-O install name that points into the build tree.
    BadInstallName { install_name: String },
}

/// One finding: the file and what was found in it.
#[derive(Clone, Debug)]
pub struct ValidationFinding {
    pub file_path: String,
    pub issue_type: IssueType,
}

/// The findings of the scanners, in the order they were made.
#[derive(Debug)]
pub struct DiagnosticCollector {
    findings: Vec<ValidationFinding>,
}

/// The finding is an embedded build path.
pub open spec fn is_hardcoded(f: ValidationFinding) -> bool {
    f.issue_type is HardcodedBuildPath
}

/// The finding is a Mach-O load-command problem.
pub open spec fn is_macho_issue(f: ValidationFinding) -> bool {
    f.issue_type is BadRPath || f.issue_type is BadInstallName
}

/// The files of the findings that satisfy `pred`, each once, in the order of
/// their first such finding.
pub open spec fn distinct_files(fs: Seq<ValidationFinding>, pred: spec_fn(ValidationFinding) -> bool) -> Seq<Seq<char>>
    decreases fs.len(),
{
    if fs.len() == 0 {
        seq![]
    } else {
        let prev = distinct_files(fs.drop_last(), pred);
        let f = fs.last();
        if pred(f) && !prev.contains(f.file_path@) {
            prev.push(f.file_path@)
        } else {
            prev
        }
    }
}

impl View for DiagnosticCollector {
    type V = Seq<ValidationFinding>;

    closed spec fn view(&self) -> Seq<ValidationFinding> {
        self.findings@
    }
}

impl DiagnosticCollector {
    /// An empty collector.
    pub fn new() -> (r: Self)
        ensures
            r@ == Seq::<ValidationFinding>::empty(),
    {
        DiagnosticCollector { findings: Vec::new() }
    }

    /// Records a finding.
    pub fn add_finding(&mut self, finding: ValidationFinding)
        ensures
            final(self)@ == old(self)@.push(finding),
    {
        self.findings.push(finding);
    }

    /// Records a build path embedded in a file.
    pub fn add_hardcoded_path(&mut self, file_path: String, build_path: String, is_placeholder: bool)
        ensures
            final(self)@ == old(self)@.push(
                ValidationFinding {
                    file_path,
                    issue_type: IssueType::HardcodedBuildPath { path: build_path, is_placeholder },
                },
            ),
    {
        self.findings.push(
            ValidationFinding {
                file_path,
                issue_type: IssueType::HardcodedBuildPath { path: build_path, is_placeholder },
            },
        );
    }

    /// Records a Mach-O load-command problem.
    pub fn add_macho_issue(&mut self, file_path: String, issue_type: IssueType)
        ensures
            final(self)@ == old(self)@.push(ValidationFinding { file_path, issue_type }),
    {
        self.findings.push(ValidationFinding { file_path, issue_type });
    }

    /// Adds the findings of another collector after ours.
    pub fn append(&mut self, other: DiagnosticCollector)
        ensures
            final(self)@ == old(self)@ + other@,
    {
        let mut other = other;
        self.findings.append(&mut other.findings);
    }

    /// Whether anything was found.
    pub fn has_findings(&self) -> (r: bool)
        ensures
            r == (self@.len() > 0),
    {
        self.findings.len() > 0
    }

    /// The number of findings.
    pub fn count(&self) -> (r: usize)
        ensures
            r == self@.len(),
    {
        self.findings.len()
    }

    /// The findings, in order.
    pub fn findings(&self) -> (r: &Vec<ValidationFinding>)
        ensures
            r@ == self@,
    {
        &self.findings
    }

    /// The findings, taken out of the collector.
    pub fn into_findings(self) -> (r: Vec<ValidationFinding>)
        ensures
            r@ == self@,
    {
        self.findings
    }

    /// The files with embedded build paths, each once, in order of discovery.
    pub fn get_files_with_hardcoded_paths(&self) -> (r: Vec<String>)
        ensures
            r@.map_values(|s: String| s@) == distinct_files(self@, |f: ValidationFinding| is_hardcoded(f)),
    {
        self.files_where(true)
    }

    /// The files with Mach-O load-command problems, each once, in order of discovery.
    pub fn get_files_with_macho_issues(&self) -> (r: Vec<String>)
        ensures
            r@.map_values(|s: String| s@) == distinct_files(self@, |f: ValidationFinding| is_macho_issue(f)),
    {
        self.files_where(false)
    }

    fn files_where(&self, hardcoded: bool) -> (r: Vec<String>)
        ensures
            r@.map_values(|s: String| s@) == distinct_files(
                self@,
                if hardcoded {
                    |f: ValidationFinding| is_hardcoded(f)
                } else {
                    |f: ValidationFinding| is_macho_issue(f)
                },
            ),
    {
        let ghost pred = if hardcoded {
            |f: ValidationFinding| is_hardcoded(f)
        } else {
            |f: ValidationFinding| is_macho_issue(f)
        };
        let mut r: Vec<String> = Vec::new();
        for i in 0..self.findings.len()
            invariant
                pred == (if hardcoded {
                    |f: ValidationFinding| is_hardcoded(f)
                } else {
                    |f: ValidationFinding| is_macho_issue(f)
                }),
                r@.map_values(|s: String| s@) == distinct_files(self.findings@.take(i as int), pred),
        {
            let f = &self.findings[i];
            proof {
                assert(self.findings@.take(i + 1).drop_last() == self.findings@.take(i as int));
            }
            let wanted = match &f.issue_type {
                IssueType::HardcodedBuildPath { .. } => hardcoded,
                IssueType::BadRPath { .. } => !hardcoded,
                IssueType::BadInstallName { .. } => !hardcoded,
                IssueType::BuildPathInArchive { .. } => false,
            };
            if wanted {
                let mut seen = false;
                for j in 0..r.len()
                    invariant
                        seen == exists|l: int| 0 <= l < j && r@[l]@ == f.file_path@,
                {
                    if r[j] == f.file_path {
                        seen = true;
                    }
                }
                proof {
                    let prev = distinct_files(self.findings@.take(i as int), pred);
                    assert(prev == r@.map_values(|s: String| s@));
                    if prev.contains(f.file_path@) {
                        let l = choose|l: int| 0 <= l < prev.len() && prev[l] == f.file_path@;
                        assert(r@.map_values(|s: String| s@)[l] == r@[l]@);
                    }
                    if seen {
                        let l = choose|l: int| 0 <= l < r@.len() && r@[l]@ == f.file_path@;
                        assert(r@.map_values(|s: String| s@)[l] == r@[l]@);
                        assert(prev[l] == f.file_path@);
                    }
                    assert(seen == prev.contains(f.file_path@));
                }
                if !seen {
                    r.push(f.file_path.clone());
                    assert(r@.map_values(|s: String| s@) =~= distinct_files(self.findings@.take(i as int), pred).push(
                        f.file_path@,
                    ));
                }
            }
        }
        assert(self.findings@.take(self.findings@.len() as int) == self.findings@);
        r
    }
}

} // verus!
