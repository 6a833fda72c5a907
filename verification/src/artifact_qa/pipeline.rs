//! The QA pipeline's decisions: pre-validation, patching and final
//! validation, as a state machine that says which action runs next and what
//! the outcome is. The caller runs each action and hands back its report.
use crate::artifact_qa::diagnostics::DiagnosticCollector;
use crate::artifact_qa::reports::{absorbed, findings_of, is_empty_report, merge_findings, MergedReport, Report};
use crate::artifact_qa::router::{
    determine_profile_with_override, get_patchers_for_profile, get_validators_for_profile,
    patchers_for, profile_for, validators_for, BuildSystemProfile, QaPipelineOverride,
};
use crate::artifact_qa::{PatcherAction, ValidatorAction};
use crate::text::string_views;
use vstd::prelude::*;

verus! {

/// Where the pipeline stands.
#[derive(Clone, Copy, Debug, PartialEq, Eq, Structural)]
pub enum QaPhase {
    /// Phase 1: every validator of the profile runs.
    PreValidation,
    /// Phase 2: the patchers run, until one leaves the merged report fatal.
    Patching,
    /// Phase 3: the validators run again, until the merged report is fatal.
    PostValidation,
    /// Nothing is left to run.
    Finished,
}

/// What the caller does next.
pub enum QaStep {
    /// Run this validator, without findings, and record its report.
    RunValidator(ValidatorAction),
    /// Run this patcher, with the findings of phase 1, and record its report.
    RunPatcher(PatcherAction),
    /// The pipeline is finished; ask for its outcome.
    Done,
}

/// How the pipeline ended.
#[derive(Debug)]
pub enum QaOutcome {
    /// Every check ran; the counts of checks, passed and failed.
    Passed { total: usize, passed: usize, failed: usize },
    /// The build fails with this message.
    Failed { message: String },
}

/// The QA pipeline for one build.
pub struct QaPipeline {
    profile: BuildSystemProfile,
    phase: QaPhase,
    next: usize,
    pre: MergedReport,
    patched: MergedReport,
    post: MergedReport,
    validator_findings: Option<DiagnosticCollector>,
    total: usize,
    failed: usize,
    error: Option<String>,
}

impl QaPipeline {
    /// The profile the pipeline runs.
    pub closed spec fn profile(&self) -> BuildSystemProfile {
        self.profile
    }

    /// The phase the pipeline is in.
    pub closed spec fn phase(&self) -> QaPhase {
        self.phase
    }

    /// The index of the next action within its phase.
    pub closed spec fn next_index(&self) -> nat {
        self.next as nat
    }

    /// The number of checks recorded.
    pub closed spec fn checks(&self) -> nat {
        self.total as nat
    }

    /// The number of recorded checks whose report was fatal.
    pub closed spec fn failed_checks(&self) -> nat {
        self.failed as nat
    }


    /// The findings phase 1 left for the patchers.
    pub closed spec fn handed_findings(&self) -> Option<DiagnosticCollector> {
        self.validator_findings
    }

    /// The merged report of the final validation.
    pub closed spec fn post_report(&self) -> Report {
        self.post.report()
    }

    /// The merged report of the first validation.
    pub closed spec fn pre_report(&self) -> Report {
        self.pre.report()
    }

    /// The merged report of the patchers.
    pub closed spec fn patch_report(&self) -> Report {
        self.patched.report()
    }

    /// Whether the merged final validation is fatal: it holds an error.
    pub open spec fn post_fatal(&self) -> bool {
        self.post_report().errors@.len() > 0
    }

    /// Whether the merged patch reports are fatal: they hold an error.
    pub open spec fn patch_fatal(&self) -> bool {
        self.patch_report().errors@.len() > 0
    }

    /// The error an action returned, if one did.
    pub closed spec fn action_error(&self) -> Option<String> {
        self.error
    }

    /// The state is consistent: the index lies inside its phase's list, and
    /// the counts are bounded by the actions of the phases run so far.
    pub closed spec fn wf(&self) -> bool {
        let v = validators_for(self.profile).len();
        let p = patchers_for(self.profile).len();
        &&& self.failed <= self.total
        &&& self.total <= v + p + v
        &&& match self.phase {
            QaPhase::PreValidation => self.next < v && self.total == self.next,
            QaPhase::Patching => self.next < p && self.total == v + self.next,
            QaPhase::PostValidation => self.next < v && self.total <= v + p + self.next,
            QaPhase::Finished => true,
        }
        &&& (self.phase != QaPhase::Finished ==> !self.post_fatal())
        &&& (self.phase == QaPhase::PreValidation || self.phase == QaPhase::Patching ==> !self.patch_fatal())
        &&& (self.phase == QaPhase::PreValidation ==> self.validator_findings is None)
    }

    /// Starts the pipeline for the build systems a build used: `None` where
    /// the override skips QA.
    pub fn start(used_build_systems: &Vec<String>, qa_override: Option<QaPipelineOverride>) -> (r: Option<Self>)
        ensures
            r is None <==> qa_override == Some(QaPipelineOverride::Skip),
            r matches Some(q) ==> {
                &&& q.wf()
                &&& q.phase() == QaPhase::PreValidation
                &&& q.next_index() == 0
                &&& q.checks() == 0
                &&& q.action_error() is None
                &&& is_empty_report(q.pre_report())
                &&& is_empty_report(q.patch_report())
                &&& is_empty_report(q.post_report())
                &&& q.handed_findings() is None
                &&& Some(q.profile()) == match qa_override {
                    Some(o) if crate::artifact_qa::router::override_profile(o) is Some =>
                        crate::artifact_qa::router::override_profile(o),
                    _ => Some(profile_for(string_views(used_build_systems@))),
                }
            },
    {
        match determine_profile_with_override(used_build_systems, qa_override) {
            None => None,
            Some(profile) => {
                let q = QaPipeline {
                    profile,
                    phase: QaPhase::PreValidation,
                    next: 0,
                    pre: MergedReport::default(),
                    patched: MergedReport::default(),
                    post: MergedReport::default(),
                    validator_findings: None,
                    total: 0,
                    failed: 0,
                    error: None,
                };
                Some(q)
            },
        }
    }

    /// The action to run next.
    pub fn next_step(&self) -> (r: QaStep)
        requires
            self.wf(),
        ensures
            match self.phase() {
                QaPhase::PreValidation | QaPhase::PostValidation => r == QaStep::RunValidator(
                    validators_for(self.profile())[self.next_index() as int],
                ),
                QaPhase::Patching => r == QaStep::RunPatcher(patchers_for(self.profile())[self.next_index() as int]),
                QaPhase::Finished => r is Done,
            },
    {
        match self.phase {
            QaPhase::PreValidation | QaPhase::PostValidation => {
                let mut v = get_validators_for_profile(self.profile);
                QaStep::RunValidator(v.remove(self.next))
            },
            QaPhase::Patching => {
                let mut v = get_patchers_for_profile(self.profile);
                QaStep::RunPatcher(v.remove(self.next))
            },
            QaPhase::Finished => QaStep::Done,
        }
    }

    /// The findings of phase 1, handed to every patcher.
    pub fn validator_findings(&self) -> (r: Option<&DiagnosticCollector>)
        ensures
            match r {
                Some(c) => self.handed_findings() == Some(*c),
                None => self.handed_findings() is None,
            },
    {
        self.validator_findings.as_ref()
    }

    /// Records the report of the action that `next_step` named. Phase 1 runs
    /// every validator; phase 2 stops once the merged patch reports are
    /// fatal; phase 3 stops once the merged final reports are fatal. Each
    /// report counts as a check, failed when it is fatal, and is absorbed
    /// into the merged report of its phase; when phase 1 ends, its merged
    /// findings are handed to the patchers.
    pub fn record(&mut self, report: Report)
        requires
            old(self).wf(),
            old(self).phase() != QaPhase::Finished,
        ensures
            final(self).wf(),
            final(self).profile() == old(self).profile(),
            final(self).action_error() == old(self).action_error(),
            final(self).checks() == old(self).checks() + 1,
            final(self).failed_checks() == old(self).failed_checks() + (if report.errors@.len() > 0 { 1int } else { 0int }),
            old(self).phase() == QaPhase::PreValidation ==> {
                &&& final(self).patch_report() == old(self).patch_report()
                &&& final(self).post_report() == old(self).post_report()
                &&& if old(self).next_index() + 1 < validators_for(old(self).profile()).len() {
                    &&& absorbed(old(self).pre_report(), report, final(self).pre_report())
                    &&& final(self).handed_findings() is None
                } else {
                    &&& final(self).pre_report().changed_files@ == old(self).pre_report().changed_files@ + report.changed_files@
                    &&& final(self).pre_report().warnings@ == old(self).pre_report().warnings@ + report.warnings@
                    &&& final(self).pre_report().errors@ == old(self).pre_report().errors@ + report.errors@
                    &&& final(self).pre_report().findings is None
                    &&& findings_of(final(self).handed_findings()) == merge_findings(
                        findings_of(old(self).pre_report().findings),
                        findings_of(report.findings),
                    )
                }
            },
            old(self).phase() == QaPhase::Patching ==> {
                &&& absorbed(old(self).patch_report(), report, final(self).patch_report())
                &&& final(self).pre_report() == old(self).pre_report()
                &&& final(self).post_report() == old(self).post_report()
                &&& final(self).handed_findings() == old(self).handed_findings()
            },
            old(self).phase() == QaPhase::PostValidation ==> {
                &&& absorbed(old(self).post_report(), report, final(self).post_report())
                &&& final(self).pre_report() == old(self).pre_report()
                &&& final(self).patch_report() == old(self).patch_report()
                &&& final(self).handed_findings() == old(self).handed_findings()
            },
            old(self).phase() == QaPhase::PreValidation ==> {
                if old(self).next_index() + 1 < validators_for(old(self).profile()).len() {
                    final(self).phase() == QaPhase::PreValidation && final(self).next_index() == old(self).next_index() + 1
                } else if patchers_for(old(self).profile()).len() > 0 {
                    final(self).phase() == QaPhase::Patching && final(self).next_index() == 0
                } else {
                    final(self).phase() == QaPhase::PostValidation && final(self).next_index() == 0
                }
            },
            old(self).phase() == QaPhase::Patching ==> {
                if !final(self).patch_fatal() && old(self).next_index() + 1 < patchers_for(old(self).profile()).len() {
                    final(self).phase() == QaPhase::Patching && final(self).next_index() == old(self).next_index() + 1
                } else {
                    final(self).phase() == QaPhase::PostValidation && final(self).next_index() == 0
                }
            },
            old(self).phase() == QaPhase::PostValidation ==> {
                if !final(self).post_fatal() && old(self).next_index() + 1 < validators_for(old(self).profile()).len() {
                    final(self).phase() == QaPhase::PostValidation && final(self).next_index() == old(self).next_index() + 1
                } else {
                    final(self).phase() == QaPhase::Finished
                }
            },
    {
        let fatal = report.is_fatal();
        self.total = self.total + 1;
        if fatal {
            self.failed = self.failed + 1;
        }
        let vlen = get_validators_for_profile(self.profile).len();
        let plen = get_patchers_for_profile(self.profile).len();
        match self.phase {
            QaPhase::PreValidation => {
                self.pre.absorb(report);
                if self.next + 1 < vlen {
                    self.next = self.next + 1;
                } else {
                    self.validator_findings = self.pre.take_findings();
                    self.next = 0;
                    if plen > 0 {
                        self.phase = QaPhase::Patching;
                    } else {
                        self.phase = QaPhase::PostValidation;
                    }
                }
            },
            QaPhase::Patching => {
                self.patched.absorb(report);
                if !self.patched.is_fatal() && self.next + 1 < plen {
                    self.next = self.next + 1;
                } else {
                    self.next = 0;
                    self.phase = QaPhase::PostValidation;
                }
            },
            QaPhase::PostValidation => {
                self.post.absorb(report);
                if !self.post.is_fatal() && self.next + 1 < vlen {
                    self.next = self.next + 1;
                } else {
                    self.phase = QaPhase::Finished;
                }
            },
            QaPhase::Finished => {},
        }
    }

    /// An action failed with an error: the pipeline ends with it.
    pub fn fail(&mut self, message: String)
        requires
            old(self).wf(),
        ensures
            final(self).wf(),
            final(self).phase() == QaPhase::Finished,
            final(self).action_error() == Some(message),
            final(self).checks() == old(self).checks(),
            final(self).failed_checks() == old(self).failed_checks(),
            final(self).pre_report() == old(self).pre_report(),
            final(self).patch_report() == old(self).patch_report(),
            final(self).post_report() == old(self).post_report(),
            final(self).handed_findings() == old(self).handed_findings(),
    {
        self.phase = QaPhase::Finished;
        self.error = Some(message);
    }

    /// How the finished pipeline ended: the error of a failed action; a
    /// failure with the rendered final report where it is fatal; else the
    /// counts of checks.
    pub fn outcome(&self) -> (r: QaOutcome)
        requires
            self.wf(),
            self.phase() == QaPhase::Finished,
        ensures
            match self.action_error() {
                Some(e) => r matches QaOutcome::Failed { message } && message@ == e@,
                None => if self.post_fatal() {
                    r matches QaOutcome::Failed { message } && message@ == crate::artifact_qa::reports::rendered(
                        "Relocatability check failed"@,
                        self.post_report().errors@,
                        self.post_report().warnings@,
                    )
                } else {
                    r matches QaOutcome::Passed { total, passed, failed }
                        && total == self.checks() && failed == self.failed_checks()
                        && passed == self.checks() - self.failed_checks()
                },
            },
    {
        match &self.error {
            Some(e) => QaOutcome::Failed { message: e.clone() },
            None => {
                if self.post.is_fatal() {
                    QaOutcome::Failed { message: self.post.render("Relocatability check failed") }
                } else {
                    QaOutcome::Passed { total: self.total, passed: self.total - self.failed, failed: self.failed }
                }
            },
        }
    }
}

} // verus!
