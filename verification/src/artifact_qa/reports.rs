//! Reports of validators and patchers, and their merging.
use crate::artifact_qa::diagnostics::{DiagnosticCollector, ValidationFinding};
use crate::text::{push_all, to_chars, from_chars};
use vstd::prelude::*;

verus! {

/// What one validator or patcher reports.
#[derive(Debug)]
pub struct Report {
    /// Files whose content was changed
    pub changed_files: Vec<String>,
    /// Warnings
    pub warnings: Vec<String>,
    /// Errors; any error makes the report fatal
    pub errors: Vec<String>,
    /// Findings from validators that can be passed to patchers
    pub findings: Option<DiagnosticCollector>,
}

/// The findings of an optional collector.
pub open spec fn findings_of(c: Option<DiagnosticCollector>) -> Option<Seq<ValidationFinding>> {
    match c {
        Some(d) => Some(d@),
        None => None,
    }
}

/// Merging findings: ours followed by theirs; theirs where we have none.
pub open spec fn merge_findings(
    ours: Option<Seq<ValidationFinding>>,
    theirs: Option<Seq<ValidationFinding>>,
) -> Option<Seq<ValidationFinding>> {
    match theirs {
        None => ours,
        Some(t) => match ours {
            Some(o) => Some(o + t),
            None => Some(t),
        },
    }
}

/// One line `<prefix><item>` per item, each ending in a newline.
pub open spec fn prefixed_lines(prefix: Seq<char>, items: Seq<String>) -> Seq<char>
    decreases items.len(),
{
    if items.len() == 0 {
        seq![]
    } else {
        prefixed_lines(prefix, items.drop_last()) + prefix + items.last()@ + "\n"@
    }
}

/// The rendered report: the title and a colon, then one indented line per
/// error, then one per warning marked `(warning)`.
pub open spec fn rendered(title: Seq<char>, errors: Seq<String>, warnings: Seq<String>) -> Seq<char> {
    title + ":\n"@ + prefixed_lines("  "@, errors) + prefixed_lines("  (warning) "@, warnings)
}

/// The report is empty: nothing changed, nothing found.
pub open spec fn is_empty_report(r: Report) -> bool {
    &&& r.changed_files@.len() == 0
    &&& r.warnings@.len() == 0
    &&& r.errors@.len() == 0
    &&& r.findings is None
}

/// `into` after absorbing `from`: each list extended, findings merged.
pub open spec fn absorbed(into: Report, from: Report, result: Report) -> bool {
    &&& result.changed_files@ == into.changed_files@ + from.changed_files@
    &&& result.warnings@ == into.warnings@ + from.warnings@
    &&& result.errors@ == into.errors@ + from.errors@
    &&& findings_of(result.findings) == merge_findings(findings_of(into.findings), findings_of(from.findings))
}

fn push_line(out: &mut Vec<char>, prefix: &str, item: &String)
    ensures
        final(out)@ == old(out)@ + prefix@ + item@ + "\n"@,
{
    let p = to_chars(prefix);
    let i = to_chars(item.as_str());
    let nl = to_chars("\n");
    push_all(out, p.as_slice());
    push_all(out, i.as_slice());
    push_all(out, nl.as_slice());
}

fn push_lines(out: &mut Vec<char>, prefix: &str, items: &Vec<String>)
    ensures
        final(out)@ == old(out)@ + prefixed_lines(prefix@, items@),
{
    for k in 0..items.len()
        invariant
            out@ == old(out)@ + prefixed_lines(prefix@, items@.take(k as int)),
    {
        proof {
            assert(items@.take(k + 1).drop_last() == items@.take(k as int));
        }
        push_line(out, prefix, &items[k]);
    }
    assert(items@.take(items@.len() as int) == items@);
}

impl Report {
    /// Create an empty report indicating success
    pub fn ok() -> (r: Self)
        ensures
            is_empty_report(r),
    {
        Report { changed_files: Vec::new(), warnings: Vec::new(), errors: Vec::new(), findings: None }
    }

    /// Check if the report contains fatal errors
    pub fn is_fatal(&self) -> (r: bool)
        ensures
            r == (self.errors@.len() > 0),
    {
        self.errors.len() > 0
    }

    /// Add another report's data into `self`.
    pub fn absorb(&mut self, other: Self)
        ensures
            absorbed(*old(self), other, *final(self)),
    {
        let mut other = other;
        self.changed_files.append(&mut other.changed_files);
        self.warnings.append(&mut other.warnings);
        self.errors.append(&mut other.errors);
        match other.findings {
            Some(theirs) => {
                match self.findings.take() {
                    Some(ours) => {
                        let mut merged = ours;
                        merged.append(theirs);
                        self.findings = Some(merged);
                    },
                    None => {
                        self.findings = Some(theirs);
                    },
                }
            },
            None => {},
        }
    }

    /// Render the report as a formatted string
    pub fn render(&self, title: &str) -> (r: String)
        ensures
            r@ == rendered(title@, self.errors@, self.warnings@),
    {
        let mut out = to_chars(title);
        let head = to_chars(":\n");
        push_all(&mut out, head.as_slice());
        push_lines(&mut out, "  ", &self.errors);
        push_lines(&mut out, "  (warning) ", &self.warnings);
        from_chars(out.as_slice())
    }
}

/// A report merged from an empty one by absorbing the reports `rs` in turn,
/// through the states `steps`, is fatal exactly when one of `rs` was.
pub proof fn lemma_merged_fatal(steps: Seq<Report>, rs: Seq<Report>)
    requires
        steps.len() == rs.len() + 1,
        is_empty_report(steps[0]),
        forall|i: int| 0 <= i < rs.len() ==> absorbed(#[trigger] steps[i], rs[i], steps[i + 1]),
    ensures
        (steps.last().errors@.len() > 0) <==> exists|i: int| 0 <= i < rs.len() && (#[trigger] rs[i]).errors@.len() > 0,
    decreases rs.len(),
{
    if rs.len() > 0 {
        let n = rs.len() - 1;
        let s0 = steps.drop_last();
        let r0 = rs.drop_last();
        assert forall|i: int| 0 <= i < r0.len() implies absorbed(#[trigger] s0[i], r0[i], s0[i + 1]) by {
            assert(absorbed(steps[i], rs[i], steps[i + 1]));
        }
        lemma_merged_fatal(s0, r0);
        assert(absorbed(steps[n], rs[n], steps[n + 1]));
        assert(s0.last() == steps[n]);
        if exists|i: int| 0 <= i < r0.len() && (#[trigger] r0[i]).errors@.len() > 0 {
            let i = choose|i: int| 0 <= i < r0.len() && (#[trigger] r0[i]).errors@.len() > 0;
            assert(rs[i] == r0[i]);
        }
        if exists|i: int| 0 <= i < rs.len() && (#[trigger] rs[i]).errors@.len() > 0 {
            let i = choose|i: int| 0 <= i < rs.len() && (#[trigger] rs[i]).errors@.len() > 0;
            if i < n {
                assert(r0[i] == rs[i]);
            }
        }
    }
}

/// Convenience wrap that merges many reports.
pub struct MergedReport(Report);

impl Default for MergedReport {
    fn default() -> (r: Self)
        ensures
            is_empty_report(r.report()),
    {
        MergedReport(Report::ok())
    }
}

impl MergedReport {
    /// The merged report.
    pub closed spec fn report(&self) -> Report {
        self.0
    }

    /// Absorbs a report.
    pub fn absorb(&mut self, r: Report)
        ensures
            absorbed(old(self).report(), r, final(self).report()),
    {
        self.0.absorb(r);
    }

    /// Check if the merged report contains fatal errors
    pub fn is_fatal(&self) -> (r: bool)
        ensures
            r == (self.report().errors@.len() > 0),
    {
        self.0.is_fatal()
    }

    /// Render the merged report as a formatted string
    pub fn render(&self, title: &str) -> (r: String)
        ensures
            r@ == rendered(title@, self.report().errors@, self.report().warnings@),
    {
        self.0.render(title)
    }

    /// Get the collected findings
    pub fn findings(&self) -> (r: Option<&DiagnosticCollector>)
        ensures
            match r {
                Some(c) => self.report().findings == Some(*c),
                None => self.report().findings is None,
            },
    {
        self.0.findings.as_ref()
    }

    /// Take the collected findings
    pub fn take_findings(&mut self) -> (r: Option<DiagnosticCollector>)
        ensures
            r == old(self).report().findings,
            final(self).report().findings is None,
            final(self).report().changed_files == old(self).report().changed_files,
            final(self).report().warnings == old(self).report().warnings,
            final(self).report().errors == old(self).report().errors,
    {
        self.0.findings.take()
    }
}

} // verus!
