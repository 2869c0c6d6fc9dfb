//! Execution plans: three phases of steps over resolved capabilities.
//!
//! A plan always holds exactly three phases, in order: Detection (parallel,
//! read-only), Installation (sequential, dependency-ordered), Verification
//! (parallel, read-only). Its hash is a deterministic function of the total
//! step count and every phase name and step id in stable order, and serves as
//! the checkpoint compatibility key.

use vstd::prelude::*;
use vstd::string::{StringExecFns, StringSliceAdditionalSpecFns};
use vstd::utf8::encode_utf8;

use crate::config::{tools_of_profile, Config};
use crate::errors::{BootstrapError, BootstrapResult};
use crate::registry::{
    caps_view, dep_of_some_cap, has_cycle, ids_of, reg_closed, reg_contains, resolved_wf, CapView,
    InstallerRegistry,
};
use crate::strutil::{dec_rep, dec_string, push_dec};

verus! {

/// Step action.
pub enum StepAction {
    /// Detect if installed
    Detect,
    /// Install the tool
    Install,
    /// Verify the installation
    Verify,
    /// Skip, with a reason
    Skip { reason: String },
}

/// The mathematical content of a step action.
pub ghost enum ActionView {
    Detect,
    Install,
    Verify,
    Skip { reason: Seq<char> },
}

impl View for StepAction {
    type V = ActionView;

    open spec fn view(&self) -> ActionView {
        match self {
            StepAction::Detect => ActionView::Detect,
            StepAction::Install => ActionView::Install,
            StepAction::Verify => ActionView::Verify,
            StepAction::Skip { reason } => ActionView::Skip { reason: reason@ },
        }
    }
}

/// One scheduled action on one capability.
pub struct Step {
    /// Step id, unique within a plan
    pub id: String,
    /// Id of the capability the step acts on
    pub installer: String,
    /// Action to perform
    pub action: StepAction,
    /// Ids of the steps this one depends on
    pub dependencies: Vec<String>,
    /// Whether the step may run concurrently with others
    pub concurrency_safe: bool,
    /// Names of the locks the step must hold
    pub required_locks: Vec<String>,
}

/// The mathematical content of a step.
pub ghost struct StepView {
    pub id: Seq<char>,
    pub installer: Seq<char>,
    pub action: ActionView,
    pub dependencies: Seq<Seq<char>>,
    pub concurrency_safe: bool,
    pub required_locks: Seq<Seq<char>>,
}

impl View for Step {
    type V = StepView;

    open spec fn view(&self) -> StepView {
        StepView {
            id: self.id@,
            installer: self.installer@,
            action: self.action@,
            dependencies: self.dependencies.deep_view(),
            concurrency_safe: self.concurrency_safe,
            required_locks: self.required_locks.deep_view(),
        }
    }
}

/// An ordered group of steps sharing a parallelism policy.
pub struct Phase {
    /// Phase name
    pub name: String,
    /// Steps in this phase
    pub steps: Vec<Step>,
    /// Whether the steps may run in parallel
    pub can_parallelize: bool,
}

/// The mathematical content of a phase.
pub ghost struct PhaseView {
    pub name: Seq<char>,
    pub steps: Seq<StepView>,
    pub can_parallelize: bool,
}

impl View for Phase {
    type V = PhaseView;

    open spec fn view(&self) -> PhaseView {
        PhaseView {
            name: self.name@,
            steps: self.steps@.map_values(|s: Step| s@),
            can_parallelize: self.can_parallelize,
        }
    }
}

/// An execution plan: ordered phases plus the total step count.
pub struct ExecutionPlan {
    /// Phases to execute, in order
    pub phases: Vec<Phase>,
    /// Total number of steps over all phases
    pub total_steps: usize,
}

/// The mathematical content of a plan.
pub ghost struct PlanView {
    pub phases: Seq<PhaseView>,
    pub total_steps: int,
}

impl View for ExecutionPlan {
    type V = PlanView;

    open spec fn view(&self) -> PlanView {
        PlanView {
            phases: self.phases@.map_values(|p: Phase| p@),
            total_steps: self.total_steps as int,
        }
    }
}

/// The detection step of a capability: read-only, no locks, no dependencies.
pub open spec fn detect_step_of(c: CapView) -> StepView {
    StepView {
        id: "detect-"@ + c.id,
        installer: c.id,
        action: ActionView::Detect,
        dependencies: Seq::<Seq<char>>::empty(),
        concurrency_safe: true,
        required_locks: Seq::<Seq<char>>::empty(),
    }
}

/// The installation step of a capability: depends on the install steps of the
/// capability's dependencies; a capability that is not concurrency-safe holds
/// the package-manager lock for the step's duration.
pub open spec fn install_step_of(c: CapView) -> StepView {
    StepView {
        id: "install-"@ + c.id,
        installer: c.id,
        action: ActionView::Install,
        dependencies: c.dependencies.map_values(|d: Seq<char>| "install-"@ + d),
        concurrency_safe: c.concurrency_safe,
        required_locks: if c.concurrency_safe {
            Seq::<Seq<char>>::empty()
        } else {
            seq!["package_manager_lock"@]
        },
    }
}

/// The verification step of a capability: read-only, depends on the
/// capability's install step.
pub open spec fn verify_step_of(c: CapView) -> StepView {
    StepView {
        id: "verify-"@ + c.id,
        installer: c.id,
        action: ActionView::Verify,
        dependencies: seq!["install-"@ + c.id],
        concurrency_safe: true,
        required_locks: Seq::<Seq<char>>::empty(),
    }
}

/// The plan a sequence of resolved capabilities gives rise to: one Detection,
/// one Installation and one Verification phase, each with one step per
/// capability, in resolution order.
pub open spec fn plan_view_of(caps: Seq<CapView>) -> PlanView {
    PlanView {
        phases: seq![
            PhaseView {
                name: "Detection"@,
                steps: caps.map_values(|c: CapView| detect_step_of(c)),
                can_parallelize: true,
            },
            PhaseView {
                name: "Installation"@,
                steps: caps.map_values(|c: CapView| install_step_of(c)),
                can_parallelize: false,
            },
            PhaseView {
                name: "Verification"@,
                steps: caps.map_values(|c: CapView| verify_step_of(c)),
                can_parallelize: true,
            },
        ],
        total_steps: 3 * caps.len() as int,
    }
}

/// Build a step id from an action prefix and a capability id.
fn step_id(prefix: &str, cap_id: &str) -> (r: String)
    ensures
        r@ == prefix@ + cap_id@,
{
    let s = prefix.to_owned();
    s.concat(cap_id)
}

impl ExecutionPlan {
    /// Compute the execution plan of a profile: resolve the profile's tools
    /// through the registry and emit the three phases. Resolution errors
    /// (unknown tool, dependency cycle) abort before any plan exists.
    #[verifier::loop_isolation(false)]
    pub fn compute(
        registry: &InstallerRegistry,
        config: &Config,
        profile: &str,
    ) -> (r: BootstrapResult<ExecutionPlan>)
        requires
            registry.wf(),
            3 * registry@.len() <= usize::MAX as int,
        ensures
            match r {
                Ok(plan) => exists|caps: Seq<CapView>|
                    {
                        &&& #[trigger] resolved_wf(registry@, caps)
                        &&& crate::registry::all_included(
                            caps,
                            tools_of_profile(config.profiles@, profile@),
                        )
                        &&& plan@ == plan_view_of(caps)
                    },
                Err(e) => match e {
                    BootstrapError::ToolNotFound(t) => !reg_contains(registry@, t@) && (
                    tools_of_profile(config.profiles@, profile@).contains(t@) || dep_of_some_cap(
                        registry@,
                        t@,
                    )),
                    BootstrapError::CyclicDependency => has_cycle(registry@),
                    _ => false,
                },
            },
            (reg_closed(registry@) && !has_cycle(registry@) && (forall|k: int|
                0 <= k < tools_of_profile(config.profiles@, profile@).len() ==> reg_contains(
                    registry@,
                    #[trigger] tools_of_profile(config.profiles@, profile@)[k],
                ))) ==> r is Ok,
    {
        let ghost g = registry@;
        let ghost wanted = tools_of_profile(config.profiles@, profile@);
        let tools = config.get_tools_for_profile(profile);
        let mut tool_ids: Vec<String> = Vec::new();
        let n0 = tools.len();
        let mut k: usize = 0;
        while k < n0
            invariant
                k <= n0 == tools@.len(),
                tool_ids@.len() == k,
                forall|t: int| 0 <= t < k ==> tool_ids@[t]@ == tools@[t]@,
            decreases n0 - k,
        {
            tool_ids.push(tools[k].to_owned());
            k = k + 1;
        }
        proof {
            assert forall|t: int| 0 <= t < n0 implies tool_ids.deep_view()[t] == wanted[t] by {
                assert(tool_ids@[t]@ == tools@[t]@);
                assert(tools.deep_view()[t] == tools@[t]@);
            }
            assert(tool_ids.deep_view() =~= wanted);
        }
        let resolved = match registry.resolve_dependencies(&tool_ids) {
            Ok(v) => v,
            Err(e) => {
                return Err(e);
            },
        };
        let ghost rcaps = caps_view(resolved@);
        proof {
            assert forall|t: int| 0 <= t < ids_of(rcaps).len() implies reg_contains(
                g,
                #[trigger] ids_of(rcaps)[t],
            ) by {
                assert(ids_of(rcaps)[t] == rcaps[t].id);
            }
            crate::registry::lemma_distinct_registered_bound(g, ids_of(rcaps));
        }
        let n = resolved.len();

        let mut detect_steps: Vec<Step> = Vec::new();
        let mut k: usize = 0;
        while k < n
            invariant
                k <= n == resolved@.len(),
                detect_steps@.len() == k,
                forall|t: int|
                    0 <= t < k ==> detect_steps@[t]@ == detect_step_of(#[trigger] rcaps[t]),
            decreases n - k,
        {
            let cap = &resolved[k];
            let st = Step {
                id: step_id("detect-", cap.id.as_str()),
                installer: cap.id.clone(),
                action: StepAction::Detect,
                dependencies: Vec::new(),
                concurrency_safe: true,
                required_locks: Vec::new(),
            };
            proof {
                assert(st@.dependencies =~= detect_step_of(rcaps[k as int]).dependencies);
                assert(st@.required_locks =~= detect_step_of(rcaps[k as int]).required_locks);
                assert(st@ =~~= detect_step_of(rcaps[k as int]));
            }
            detect_steps.push(st);
            k = k + 1;
        }

        let mut install_steps: Vec<Step> = Vec::new();
        let mut k: usize = 0;
        while k < n
            invariant
                k <= n == resolved@.len(),
                install_steps@.len() == k,
                forall|t: int|
                    0 <= t < k ==> install_steps@[t]@ == install_step_of(#[trigger] rcaps[t]),
            decreases n - k,
        {
            let cap = &resolved[k];
            let nd = cap.dependencies.len();
            let mut deps: Vec<String> = Vec::new();
            let mut d: usize = 0;
            while d < nd
                invariant
                    d <= nd == cap.dependencies@.len(),
                    deps@.len() == d,
                    forall|t: int|
                        0 <= t < d ==> deps@[t]@ == "install-"@ + #[trigger] cap.dependencies@[t]@,
                decreases nd - d,
            {
                deps.push(step_id("install-", cap.dependencies[d].as_str()));
                d = d + 1;
            }
            let mut locks: Vec<String> = Vec::new();
            if !cap.concurrency_safe {
                locks.push("package_manager_lock".to_owned());
            }
            let st = Step {
                id: step_id("install-", cap.id.as_str()),
                installer: cap.id.clone(),
                action: StepAction::Install,
                dependencies: deps,
                concurrency_safe: cap.concurrency_safe,
                required_locks: locks,
            };
            proof {
                assert forall|t: int| 0 <= t < nd implies st@.dependencies[t] == install_step_of(
                    rcaps[k as int],
                ).dependencies[t] by {
                    assert(st@.dependencies[t] == "install-"@ + cap.dependencies@[t]@);
                    assert(cap.dependencies.deep_view()[t] == cap.dependencies@[t]@);
                }
                assert(st@.dependencies =~= install_step_of(rcaps[k as int]).dependencies);
                assert(st@.required_locks =~= install_step_of(rcaps[k as int]).required_locks);
                assert(st@ =~~= install_step_of(rcaps[k as int]));
            }
            install_steps.push(st);
            k = k + 1;
        }

        let mut verify_steps: Vec<Step> = Vec::new();
        let mut k: usize = 0;
        while k < n
            invariant
                k <= n == resolved@.len(),
                verify_steps@.len() == k,
                forall|t: int|
                    0 <= t < k ==> verify_steps@[t]@ == verify_step_of(#[trigger] rcaps[t]),
            decreases n - k,
        {
            let cap = &resolved[k];
            let mut deps: Vec<String> = Vec::new();
            deps.push(step_id("install-", cap.id.as_str()));
            let st = Step {
                id: step_id("verify-", cap.id.as_str()),
                installer: cap.id.clone(),
                action: StepAction::Verify,
                dependencies: deps,
                concurrency_safe: true,
                required_locks: Vec::new(),
            };
            proof {
                assert(st@.dependencies =~= verify_step_of(rcaps[k as int]).dependencies);
                assert(st@.required_locks =~= verify_step_of(rcaps[k as int]).required_locks);
                assert(st@ =~~= verify_step_of(rcaps[k as int]));
            }
            verify_steps.push(st);
            k = k + 1;
        }

        let mut phases: Vec<Phase> = Vec::new();
        phases.push(
            Phase { name: "Detection".to_owned(), steps: detect_steps, can_parallelize: true },
        );
        phases.push(
            Phase { name: "Installation".to_owned(), steps: install_steps, can_parallelize: false },
        );
        phases.push(
            Phase { name: "Verification".to_owned(), steps: verify_steps, can_parallelize: true },
        );
        let total: usize = 3 * n;
        let plan = ExecutionPlan { phases, total_steps: total };
        proof {
            let pv = plan_view_of(rcaps);
            assert(plan@.phases[0].steps =~= pv.phases[0].steps);
            assert(plan@.phases[1].steps =~= pv.phases[1].steps);
            assert(plan@.phases[2].steps =~= pv.phases[2].steps);
            assert(plan@.phases[0] =~~= pv.phases[0]);
            assert(plan@.phases[1] =~~= pv.phases[1]);
            assert(plan@.phases[2] =~~= pv.phases[2]);
            assert(plan@.phases =~~= pv.phases);
            assert(plan@ =~~= pv);
            assert(resolved_wf(g, rcaps));
        }
        Ok(plan)
    }

    /// Compute the plan's hash, the checkpoint compatibility key: a decimal
    /// rendering of a 32-bit fold over the step count, phase names and step
    /// ids in stable order.
    #[verifier::loop_isolation(false)]
    pub fn compute_hash(&self) -> (r: String)
        ensures
            encode_utf8(r@) == dec_rep(plan_hash(self@)),
    {
        let mut tv: Vec<u8> = Vec::new();
        push_dec(&mut tv, self.total_steps as u64);
        let mut h: u64 = hash_slice(17, tv.as_slice());
        let np = self.phases.len();
        let mut i: usize = 0;
        while i < np
            invariant
                i <= np == self.phases@.len(),
                h == hash_phases_upto(
                    hash_bytes(17, dec_rep(self@.total_steps as nat)),
                    self@.phases,
                    i as int,
                ),
                h < 0x1_0000_0000,
            decreases np - i,
        {
            let phase = &self.phases[i];
            let mut ph: u64 = hash_str(h, phase.name.as_str());
            let ns = phase.steps.len();
            let mut t: usize = 0;
            while t < ns
                invariant
                    t <= ns == phase.steps@.len(),
                    ph == hash_steps_upto(
                        hash_bytes(
                            hash_phases_upto(
                                hash_bytes(17, dec_rep(self@.total_steps as nat)),
                                self@.phases,
                                i as int,
                            ),
                            encode_utf8(phase.name@),
                        ),
                        self@.phases[i as int].steps,
                        t as int,
                    ),
                    ph < 0x1_0000_0000,
                decreases ns - t,
            {
                proof {
                    assert(self@.phases[i as int].steps[t as int] == phase.steps@[t as int]@);
                }
                ph = hash_str(ph, phase.steps[t].id.as_str());
                t = t + 1;
            }
            h = ph;
            proof {
                assert(self@.phases[i as int] == phase@);
            }
            i = i + 1;
        }
        dec_string(h)
    }
}

/// One mixing step of the plan hash: fold a byte into a 32-bit accumulator.
pub open spec fn mix(h: nat, b: u8) -> nat {
    ((h * 31 + b) % 0x1_0000_0000) as nat
}

/// The accumulator after folding the first `k` bytes of `b` into `h`.
pub open spec fn hash_bytes_upto(h: nat, b: Seq<u8>, k: int) -> nat
    decreases k,
{
    if k <= 0 {
        h
    } else {
        mix(hash_bytes_upto(h, b, k - 1), b[k - 1])
    }
}

/// The accumulator after folding all bytes of `b` into `h`.
pub open spec fn hash_bytes(h: nat, b: Seq<u8>) -> nat {
    hash_bytes_upto(h, b, b.len() as int)
}

/// The accumulator after folding the ids of the first `k` steps into `h`.
pub open spec fn hash_steps_upto(h: nat, steps: Seq<StepView>, k: int) -> nat
    decreases k,
{
    if k <= 0 {
        h
    } else {
        hash_bytes(hash_steps_upto(h, steps, k - 1), encode_utf8(steps[k - 1].id))
    }
}

/// The accumulator after folding a phase's name and step ids into `h`.
pub open spec fn hash_phase(h: nat, ph: PhaseView) -> nat {
    hash_steps_upto(hash_bytes(h, encode_utf8(ph.name)), ph.steps, ph.steps.len() as int)
}

/// The accumulator after folding the first `k` phases into `h`.
pub open spec fn hash_phases_upto(h: nat, ps: Seq<PhaseView>, k: int) -> nat
    decreases k,
{
    if k <= 0 {
        h
    } else {
        hash_phase(hash_phases_upto(h, ps, k - 1), ps[k - 1])
    }
}

/// The plan's hash value: a fold over the total step count, every phase name
/// and every step id, in stable order.
pub open spec fn plan_hash(p: PlanView) -> nat {
    hash_phases_upto(hash_bytes(17, dec_rep(p.total_steps as nat)), p.phases, p.phases.len() as int)
}

/// The plan hash is a pure function of the plan's structure: two plans with
/// the same phases, step ids and step count always hash to the same value.
pub proof fn lemma_plan_hash_pure(a: PlanView, b: PlanView)
    requires
        a == b,
    ensures
        plan_hash(a) == plan_hash(b),
{
}

/// The accumulator stays below 2^32 when it starts there.
proof fn lemma_hash_bytes_upto_bound(h: nat, b: Seq<u8>, k: int)
    requires
        h < 0x1_0000_0000,
    ensures
        hash_bytes_upto(h, b, k) < 0x1_0000_0000,
    decreases k,
{
    if k > 0 {
        lemma_hash_bytes_upto_bound(h, b, k - 1);
    }
}

/// Fold the bytes of a slice into the accumulator.
#[verifier::loop_isolation(false)]
fn hash_slice(h: u64, b: &[u8]) -> (r: u64)
    requires
        h < 0x1_0000_0000,
    ensures
        r == hash_bytes(h as nat, b@),
        r < 0x1_0000_0000,
{
    let mut cur: u64 = h;
    let n = b.len();
    let mut k: usize = 0;
    while k < n
        invariant
            k <= n == b@.len(),
            cur == hash_bytes_upto(h as nat, b@, k as int),
            cur < 0x1_0000_0000,
        decreases n - k,
    {
        cur = (cur * 31 + (b[k] as u64)) % 0x1_0000_0000;
        k = k + 1;
    }
    cur
}

/// Fold the bytes of a string into the accumulator.
fn hash_str(h: u64, s: &str) -> (r: u64)
    requires
        h < 0x1_0000_0000,
    ensures
        r == hash_bytes(h as nat, encode_utf8(s@)),
        r < 0x1_0000_0000,
{
    hash_slice(h, s.as_bytes())
}

} // verus!
