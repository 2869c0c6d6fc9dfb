//! Step-wise execution of a plan.
//!
//! The engine walks the plan's phases strictly in order and hands out one
//! step at a time; the driving binary performs the step's operation (process
//! calls, waiting, locking) and submits the outcome. Every submitted outcome
//! yields exactly one step result, in request order. A failed installation
//! step aborts the rest of the Installation phase — its dependents' results
//! are never produced — while detection and verification failures never stop
//! their phase.

use vstd::prelude::*;
use vstd::string::{StringExecFns, StringSliceAdditionalSpecFns};

use crate::errors::BootstrapError;
use crate::plan::{ExecutionPlan, PlanView, Step, StepView};
use crate::version::Version;

verus! {

/// Installation result payload.
pub struct InstallResult {
    /// Version installed
    pub version: Version,
    /// Whether this was a new install (vs already present)
    pub installed_new: bool,
    /// Log messages
    pub log_messages: Vec<String>,
}

/// Verification result payload.
pub struct VerifyResult {
    /// Success status
    pub success: bool,
    /// Version, if detected
    pub version: Option<Version>,
    /// Issues found
    pub issues: Vec<String>,
}

/// What the capability operation of one step returned.
pub enum StepOutcome {
    /// Detection completed; absence of the tool is a normal negative result.
    Detected { version: Option<Version> },
    /// Detection itself failed (for example, unparseable version output).
    DetectFailed { error: BootstrapError },
    /// Installation succeeded.
    Installed { result: InstallResult },
    /// Installation failed; in a sequential phase this aborts the phase.
    InstallFailed { error: BootstrapError },
    /// Verification ran; failure is carried in the payload, never fatal.
    Verified { result: VerifyResult },
    /// The step was skipped for the given reason.
    Skipped { reason: String },
}

/// Execution result for a single step.
pub struct StepResult {
    /// Step id
    pub step_id: String,
    /// Capability id
    pub installer_id: String,
    /// Success flag
    pub success: bool,
    /// Elapsed duration in milliseconds
    pub duration_ms: u64,
    /// The failure, if the step failed
    pub error: Option<BootstrapError>,
    /// Install payload (install steps only)
    pub install_result: Option<InstallResult>,
    /// Verify payload (detect and verify steps)
    pub verify_result: Option<VerifyResult>,
}

/// Whether an outcome counts as success for its step.
pub open spec fn outcome_success(o: StepOutcome) -> bool {
    match o {
        StepOutcome::Detected { .. } => true,
        StepOutcome::DetectFailed { .. } => false,
        StepOutcome::Installed { .. } => true,
        StepOutcome::InstallFailed { .. } => false,
        StepOutcome::Verified { result } => result.success,
        StepOutcome::Skipped { .. } => true,
    }
}

/// The issues of a verification, joined by "; " into one message.
pub open spec fn joined_issues(l: Seq<Seq<char>>) -> Seq<char>
    decreases l.len(),
{
    if l.len() == 0 {
        Seq::<char>::empty()
    } else if l.len() == 1 {
        l[0]
    } else {
        joined_issues(l.drop_last()) + "; "@ + l.last()
    }
}

/// Join a verification's issues into one message, separated by "; ".
#[verifier::loop_isolation(false)]
pub fn join_issues(issues: &Vec<String>) -> (r: String)
    ensures
        r@ == joined_issues(issues.deep_view()),
{
    let mut out = String::new();
    let n = issues.len();
    let mut k: usize = 0;
    while k < n
        invariant
            k <= n == issues@.len(),
            out@ == joined_issues(issues.deep_view().take(k as int)),
        decreases n - k,
    {
        if k > 0 {
            out = out.concat("; ");
        }
        out = out.concat(issues[k].as_str());
        proof {
            let dv = issues.deep_view();
            assert(dv.take(k + 1).drop_last() =~= dv.take(k as int));
            assert(dv.take(k + 1).last() == dv[k as int]);
            if k == 0 {
                assert(dv.take(1)[0] == dv[0]);
            }
        }
        k = k + 1;
    }
    proof {
        assert(issues.deep_view().take(n as int) =~= issues.deep_view());
    }
    out
}

/// The position execution resumes at from a raw phase/step pair: the pair
/// itself when it denotes a real step, else the first step of the next phase
/// that still holds one; past the last phase, the finished position.
pub open spec fn norm_pos(p: PlanView, ph: int, st: int) -> (int, int)
    decreases p.phases.len() - ph
        when 0 <= ph
{
    if ph >= p.phases.len() {
        (p.phases.len() as int, 0)
    } else if st < p.phases[ph].steps.len() {
        (ph, st)
    } else {
        norm_pos(p, ph + 1, 0)
    }
}

/// Step-wise executor state: the plan, the position of the next step, and
/// the results collected so far.
pub struct Execution {
    /// The plan being executed
    pub plan: ExecutionPlan,
    /// Index of the current phase
    pub phase: usize,
    /// Index of the next step within the current phase
    pub step: usize,
    /// One result per submitted outcome, in submission order
    pub results: Vec<StepResult>,
}

impl Execution {
    /// Whether the position is well formed: the phase index is within range
    /// and, unless every phase is finished, the step index denotes a real
    /// step of the current phase.
    pub open spec fn wf(&self) -> bool {
        &&& (self.phase as int) <= self.plan@.phases.len()
        &&& ((self.phase as int) < self.plan@.phases.len() ==> (self.step as int)
            < self.plan@.phases[self.phase as int].steps.len())
        &&& (self.phase as int) == self.plan@.phases.len() ==> self.step == 0
    }

    /// Whether every phase has completed.
    pub open spec fn done_spec(&self) -> bool {
        (self.phase as int) == self.plan@.phases.len()
    }

    /// The step the engine will hand out next.
    pub open spec fn current_step(&self) -> StepView {
        self.plan@.phases[self.phase as int].steps[self.step as int]
    }

    /// Move past phases that hold no further step.
    #[verifier::loop_isolation(false)]
    fn normalize(&mut self)
        requires
            (old(self).phase as int) <= old(self).plan@.phases.len(),
            (old(self).phase as int) < old(self).plan@.phases.len() ==> old(self).step as int <= old(
                self,
            ).plan@.phases[old(self).phase as int].steps.len(),
            (old(self).phase as int) == old(self).plan@.phases.len() ==> old(self).step == 0,
        ensures
            final(self).wf(),
            final(self).plan == old(self).plan,
            final(self).results == old(self).results,
            (final(self).phase as int, final(self).step as int) == norm_pos(
                old(self).plan@,
                old(self).phase as int,
                old(self).step as int,
            ),
    {
        proof {
            if (self.phase as int) < self.plan@.phases.len() {
                assert(self.plan@.phases[self.phase as int] == self.plan.phases@[self.phase as int]@);
                assert(self.plan@.phases[self.phase as int].steps.len() == self.plan.phases@[
                    self.phase as int
                ].steps@.len());
            }
        }
        while self.phase < self.plan.phases.len() && self.step
            >= self.plan.phases[self.phase].steps.len()
            invariant
                self.plan == old(self).plan,
                self.results == old(self).results,
                (self.phase as int) <= self.plan@.phases.len(),
                self.phase >= old(self).phase,
                self.phase == old(self).phase ==> self.step == old(self).step,
                self.phase != old(self).phase ==> self.step == 0,
                norm_pos(self.plan@, self.phase as int, self.step as int) == norm_pos(
                    old(self).plan@,
                    old(self).phase as int,
                    old(self).step as int,
                ),
            decreases self.plan@.phases.len() - self.phase,
        {
            proof {
                assert(self.plan@.phases[self.phase as int] == self.plan.phases@[self.phase as int]@);
                assert(self.plan@.phases[self.phase as int].steps.len() == self.plan.phases@[
                    self.phase as int
                ].steps@.len());
                assert(norm_pos(self.plan@, self.phase as int, self.step as int) == norm_pos(
                    self.plan@,
                    self.phase as int + 1,
                    0,
                ));
            }
            self.phase = self.phase + 1;
            self.step = 0;
        }
        proof {
            assert(self.plan@.phases.len() == self.plan.phases@.len());
            if (self.phase as int) < self.plan@.phases.len() {
                assert(self.plan@.phases[self.phase as int] == self.plan.phases@[self.phase as int]@);
                assert(self.plan@.phases[self.phase as int].steps.len() == self.plan.phases@[
                    self.phase as int
                ].steps@.len());
            }
        }
    }

    /// Start executing a plan from its first step.
    pub fn new(plan: ExecutionPlan) -> (r: Execution)
        ensures
            r.wf(),
            r.plan == plan,
            r.results@.len() == 0,
            r.phase == 0 || r.done_spec() || r.plan@.phases[0].steps.len() == 0,
    {
        let mut e = Execution { plan, phase: 0, step: 0, results: Vec::new() };
        e.normalize();
        e
    }

    /// Whether every phase has completed.
    pub fn done(&self) -> (r: bool)
        requires
            self.wf(),
        ensures
            r == self.done_spec(),
    {
        self.phase >= self.plan.phases.len()
    }

    /// The step to run next, unless execution is finished.
    pub fn current(&self) -> (r: Option<&Step>)
        requires
            self.wf(),
        ensures
            match r {
                Some(s) => !self.done_spec() && s@ == self.current_step(),
                None => self.done_spec(),
            },
    {
        if self.phase < self.plan.phases.len() {
            proof {
                assert(self.plan@.phases[self.phase as int] == self.plan.phases@[self.phase as int]@);
            }
            Some(&self.plan.phases[self.phase].steps[self.step])
        } else {
            None
        }
    }

    /// Record the outcome of the current step: exactly one result is
    /// appended, in submission order. A failed installation in a phase that
    /// does not parallelize aborts the rest of that phase, so no result for
    /// its remaining steps is ever produced; every other outcome moves to the
    /// next step.
    pub fn submit(&mut self, outcome: StepOutcome, duration_ms: u64)
        requires
            old(self).wf(),
            !old(self).done_spec(),
        ensures
            final(self).wf(),
            final(self).plan == old(self).plan,
            final(self).results@.len() == old(self).results@.len() + 1,
            final(self).results@.subrange(0, old(self).results@.len() as int) == old(
                self,
            ).results@,
            ({
                let res = final(self).results@.last();
                let cur = old(self).current_step();
                &&& res.step_id@ == cur.id
                &&& res.installer_id@ == cur.installer
                &&& res.success == outcome_success(outcome)
                &&& res.duration_ms == duration_ms
                &&& match outcome {
                    StepOutcome::Detected { version } => res.error is None
                        && res.install_result is None && (res.verify_result matches Some(v)
                        && v.success == (version is Some) && v.version == version && v.issues@.len()
                        == 0),
                    StepOutcome::DetectFailed { error } => res.error == Some(error)
                        && res.install_result is None && res.verify_result is None,
                    StepOutcome::Installed { result } => res.error is None && res.install_result
                        == Some(result) && res.verify_result is None,
                    StepOutcome::InstallFailed { error } => res.error == Some(error)
                        && res.install_result is None && res.verify_result is None,
                    StepOutcome::Verified { result } => res.install_result is None
                        && res.verify_result == Some(result) && (result.success ==> res.error
                        is None) && (!result.success ==> (res.error matches Some(e)
                        && e matches BootstrapError::VerificationFailed(m) && m@ == joined_issues(
                        result.issues.deep_view(),
                    ))),
                    StepOutcome::Skipped { reason } => res.error is None && res.install_result
                        is None && (res.verify_result matches Some(v) && v.success && v.version
                        is None && v.issues@.len() == 1 && v.issues.deep_view()[0] == "Skipped: "@
                        + reason@),
                }
            }),
            // A failed installation in a sequential phase abandons the rest of
            // that phase: execution resumes at the first remaining step after
            // it. Every other outcome resumes at the next step in plan order,
            // skipping only exhausted phases.
            (outcome matches StepOutcome::InstallFailed { .. } && !old(
                self,
            ).plan@.phases[old(self).phase as int].can_parallelize) ==> (
            final(self).phase as int,
            final(self).step as int,
            ) == norm_pos(old(self).plan@, old(self).phase as int + 1, 0),
            !(outcome matches StepOutcome::InstallFailed { .. } && !old(
                self,
            ).plan@.phases[old(self).phase as int].can_parallelize) ==> (
            final(self).phase as int,
            final(self).step as int,
            ) == norm_pos(old(self).plan@, old(self).phase as int, old(self).step as int + 1),
    {
        proof {
            assert(self.plan@.phases[self.phase as int] == self.plan.phases@[self.phase as int]@);
            assert(self.current_step() == self.plan.phases@[self.phase as int]@.steps[
                self.step as int
            ]);
            assert(self.plan.phases@[self.phase as int]@.steps[self.step as int]
                == self.plan.phases@[self.phase as int].steps@[self.step as int]@);
        }
        let cur = &self.plan.phases[self.phase].steps[self.step];
        let abort_phase = matches!(outcome, StepOutcome::InstallFailed { .. })
            && !self.plan.phases[self.phase].can_parallelize;
        let res = match outcome {
            StepOutcome::Detected { version } => StepResult {
                step_id: cur.id.clone(),
                installer_id: cur.installer.clone(),
                success: true,
                duration_ms,
                error: None,
                install_result: None,
                verify_result: Some(
                    VerifyResult {
                        success: matches!(version, Some(_)),
                        version,
                        issues: Vec::new(),
                    },
                ),
            },
            StepOutcome::DetectFailed { error } => StepResult {
                step_id: cur.id.clone(),
                installer_id: cur.installer.clone(),
                success: false,
                duration_ms,
                error: Some(error),
                install_result: None,
                verify_result: None,
            },
            StepOutcome::Installed { result } => StepResult {
                step_id: cur.id.clone(),
                installer_id: cur.installer.clone(),
                success: true,
                duration_ms,
                error: None,
                install_result: Some(result),
                verify_result: None,
            },
            StepOutcome::InstallFailed { error } => StepResult {
                step_id: cur.id.clone(),
                installer_id: cur.installer.clone(),
                success: false,
                duration_ms,
                error: Some(error),
                install_result: None,
                verify_result: None,
            },
            StepOutcome::Verified { result } => {
                let error = if result.success {
                    None
                } else {
                    Some(BootstrapError::VerificationFailed(join_issues(&result.issues)))
                };
                StepResult {
                    step_id: cur.id.clone(),
                    installer_id: cur.installer.clone(),
                    success: result.success,
                    duration_ms,
                    error,
                    install_result: None,
                    verify_result: Some(result),
                }
            },
            StepOutcome::Skipped { reason } => {
                let mut issues: Vec<String> = Vec::new();
                issues.push("Skipped: ".to_owned().concat(reason.as_str()));
                StepResult {
                    step_id: cur.id.clone(),
                    installer_id: cur.installer.clone(),
                    success: true,
                    duration_ms,
                    error: None,
                    install_result: None,
                    verify_result: Some(
                        VerifyResult { success: true, version: None, issues },
                    ),
                }
            },
        };
        let ghost results0 = self.results@;
        self.results.push(res);
        proof {
            assert(self.results@.subrange(0, results0.len() as int) =~= results0);
            assert(self.plan@.phases.len() == self.plan.phases@.len());
            assert(self.phase < self.plan.phases@.len());
            assert(self.plan@.phases[self.phase as int].steps.len() == self.plan.phases@[
                self.phase as int
            ].steps@.len());
        }
        if abort_phase {
            let np = self.plan.phases.len();
            proof {
                assert(self.phase < np);
            }
            self.phase = self.phase + 1;
            self.step = 0;
        } else {
            let ns = self.plan.phases[self.phase].steps.len();
            proof {
                assert(self.step < ns);
            }
            self.step = self.step + 1;
        }
        self.normalize();
    }
}

} // verus!
