//! Validator that checks that the staging directory holds files: an empty
//! staging directory means the build's install step failed or was skipped.
use crate::artifact_qa::reports::{is_empty_report, Report};
use crate::text::concat;
use vstd::prelude::*;

verus! {

/// Validator that checks that the staging directory holds files.
pub struct StagingScanner;

impl StagingScanner {
    /// The report for the staging directory, from whether it exists and
    /// whether it is empty: one error for a missing or an empty directory.
    pub fn report(staging_dir: &str, exists: bool, is_empty: bool) -> (r: Report)
        ensures
            !exists ==> r.errors@.len() == 1 && r.errors@[0]@ == "Staging directory does not exist: "@ + staging_dir@,
            exists && is_empty ==> r.errors@.len() == 1 && r.errors@[0]@ == "Staging directory is empty: "@
                + staging_dir@ + ". This usually indicates that the build's install step failed or was not run. Check the build recipe for proper 'make install' or equivalent installation commands."@,
            r.warnings@.len() == 0,
            r.changed_files@.len() == 0,
            r.findings is None,
            exists && !is_empty ==> is_empty_report(r),
    {
        let mut report = Report::ok();
        if !exists {
            report.errors.push(concat("Staging directory does not exist: ", staging_dir));
        } else if is_empty {
            let head = concat("Staging directory is empty: ", staging_dir);
            report.errors.push(
                concat(
                    head.as_str(),
                    ". This usually indicates that the build's install step failed or was not run. Check the build recipe for proper 'make install' or equivalent installation commands.",
                ),
            );
        }
        report
    }
}

} // verus!
