//! Retry policy: failure classification and exponential backoff.
//!
//! A failed operation is classified as Transient, Permanent, Security or
//! Unsafe; only Transient failures are retried. Retries are spaced by an
//! exponentially growing delay with an optional upward jitter of at most 30%,
//! and stop on attempt-count or time-budget exhaustion, whichever comes
//! first. The driving binary performs the waiting and the operation itself;
//! the decisions live here.

use vstd::prelude::*;

use crate::errors::BootstrapError;

verus! {

/// Retry classification.
#[derive(Debug, Clone, Copy, PartialEq, Eq, Structural)]
pub enum RetryClass {
    /// Transient error (safe to retry)
    Transient,
    /// Permanent error (do not retry)
    Permanent,
    /// Security error (checksum/signature mismatch)
    Security,
    /// Unsafe to retry (non-idempotent)
    Unsafe,
}

/// The kind of an I/O failure, as the driving binary reports it.
#[derive(Debug, Clone, Copy, PartialEq, Eq, Structural)]
pub enum IoKind {
    TimedOut,
    ConnectionReset,
    ConnectionAborted,
    ConnectionRefused,
    NotFound,
    PermissionDenied,
    InvalidInput,
    Other,
}

/// Retry policy. All durations are in milliseconds.
#[derive(Debug, Clone, Copy, PartialEq, Eq, Structural)]
pub struct RetryPolicy {
    /// Maximum number of attempts
    pub max_attempts: u32,
    /// Delay before the first retry
    pub initial_delay_ms: u64,
    /// Cap on the delay between attempts
    pub max_delay_ms: u64,
    /// Total time budget
    pub max_total_time_ms: u64,
    /// Whether to add jitter to each delay
    pub jitter: bool,
}

impl RetryPolicy {
    /// Whether the policy's numbers are usable: at least one attempt, the
    /// initial delay no larger than the cap, and the cap small enough that
    /// jitter arithmetic cannot overflow.
    pub open spec fn wf(&self) -> bool {
        &&& self.max_attempts >= 1
        &&& self.initial_delay_ms <= self.max_delay_ms
        &&& self.max_delay_ms <= 0x1_0000_0000_0000
    }

    /// Default policy for network operations: 3 attempts, 1 s doubling to
    /// 30 s, 60 s budget, jittered.
    pub fn network_default() -> (r: RetryPolicy)
        ensures
            r == (RetryPolicy {
                max_attempts: 3u32,
                initial_delay_ms: 1000u64,
                max_delay_ms: 30000u64,
                max_total_time_ms: 60000u64,
                jitter: true,
            }),
            r.wf(),
    {
        RetryPolicy {
            max_attempts: 3,
            initial_delay_ms: 1000,
            max_delay_ms: 30000,
            max_total_time_ms: 60000,
            jitter: true,
        }
    }

    /// Conservative policy for package-manager operations: 2 attempts, 2 s
    /// doubling to 10 s, 30 s budget, no jitter.
    pub fn package_manager_default() -> (r: RetryPolicy)
        ensures
            r == (RetryPolicy {
                max_attempts: 2u32,
                initial_delay_ms: 2000u64,
                max_delay_ms: 10000u64,
                max_total_time_ms: 30000u64,
                jitter: false,
            }),
            r.wf(),
    {
        RetryPolicy {
            max_attempts: 2,
            initial_delay_ms: 2000,
            max_delay_ms: 10000,
            max_total_time_ms: 30000,
            jitter: false,
        }
    }
}

/// The class of each bootstrap error: integrity failures are Security, HTTP
/// failures Transient, everything else Permanent.
pub open spec fn classify_spec(e: BootstrapError) -> RetryClass {
    match e {
        BootstrapError::ChecksumMismatch { .. } => RetryClass::Security,
        BootstrapError::HttpError(_) => RetryClass::Transient,
        _ => RetryClass::Permanent,
    }
}

/// Classify a bootstrap error to determine whether a retry is appropriate.
pub fn classify_error(e: &BootstrapError) -> (r: RetryClass)
    ensures
        r == classify_spec(*e),
{
    match e {
        BootstrapError::ChecksumMismatch { .. } => RetryClass::Security,
        BootstrapError::HttpError(_) => RetryClass::Transient,
        _ => RetryClass::Permanent,
    }
}

/// The class of each I/O failure kind: timeouts and connection failures are
/// Transient, missing resources and permission problems Permanent, anything
/// unrecognized Permanent.
pub open spec fn classify_io_spec(k: IoKind) -> RetryClass {
    match k {
        IoKind::TimedOut => RetryClass::Transient,
        IoKind::ConnectionReset => RetryClass::Transient,
        IoKind::ConnectionAborted => RetryClass::Transient,
        IoKind::ConnectionRefused => RetryClass::Transient,
        IoKind::NotFound => RetryClass::Permanent,
        IoKind::PermissionDenied => RetryClass::Permanent,
        IoKind::InvalidInput => RetryClass::Permanent,
        IoKind::Other => RetryClass::Permanent,
    }
}

/// Classify an I/O failure kind.
pub fn classify_io_error(k: IoKind) -> (r: RetryClass)
    ensures
        r == classify_io_spec(k),
{
    match k {
        IoKind::TimedOut => RetryClass::Transient,
        IoKind::ConnectionReset => RetryClass::Transient,
        IoKind::ConnectionAborted => RetryClass::Transient,
        IoKind::ConnectionRefused => RetryClass::Transient,
        IoKind::NotFound => RetryClass::Permanent,
        IoKind::PermissionDenied => RetryClass::Permanent,
        IoKind::InvalidInput => RetryClass::Permanent,
        IoKind::Other => RetryClass::Permanent,
    }
}

/// The outcome of one attempt of the wrapped operation.
#[derive(Clone, Copy, PartialEq, Eq, Structural)]
pub enum AttemptOutcome {
    /// The operation succeeded.
    Success,
    /// The operation failed with a failure of the given class.
    Failure { class: RetryClass },
}

/// Why a retry run ended.
#[derive(Debug, Clone, Copy, PartialEq, Eq, Structural)]
pub enum RetryEnd {
    /// An attempt succeeded.
    Succeeded,
    /// A non-transient failure was not retried.
    NonTransient,
    /// The attempt count was exhausted.
    AttemptsExhausted,
    /// The time budget was exhausted.
    BudgetExhausted,
}

/// What a retry run did: how many attempts were made, the delay slept before
/// each retry, and why it stopped.
pub struct RetryTrace {
    /// Number of attempts made
    pub attempts: u32,
    /// The delay slept between consecutive attempts, in order
    pub delays_ms: Vec<u64>,
    /// Why the run ended
    pub end: RetryEnd,
}

/// The base delay before the `i`th retry: the initial delay doubled `i`
/// times, capped at the policy's maximum.
pub open spec fn base_delay_spec(policy: RetryPolicy, i: int) -> nat
    decreases i,
{
    if i <= 0 {
        policy.initial_delay_ms as nat
    } else {
        let prev = base_delay_spec(policy, i - 1);
        if prev * 2 > policy.max_delay_ms {
            policy.max_delay_ms as nat
        } else {
            (prev * 2) as nat
        }
    }
}

/// Whether a slept delay agrees with the policy: exactly the base delay, or
/// within the upward jitter bound of at most 30% above it.
pub open spec fn delay_in_bounds(policy: RetryPolicy, i: int, d: u64) -> bool {
    let b = base_delay_spec(policy, i);
    if policy.jitter {
        b <= d <= (b * 130) / 100
    } else {
        d == b
    }
}

/// The total of the slept delays.
pub open spec fn sum_delays(s: Seq<u64>) -> int
    decreases s.len(),
{
    if s.len() == 0 {
        0
    } else {
        sum_delays(s.drop_last()) + s.last()
    }
}

/// Whether every outcome in `outcomes[0..k]` is a transient failure.
pub open spec fn all_transient_failures(outcomes: Seq<AttemptOutcome>, k: int) -> bool {
    forall|i: int|
        0 <= i < k ==> #[trigger] outcomes[i] == (AttemptOutcome::Failure {
            class: RetryClass::Transient,
        })
}

/// Relies on `rand::Rng::gen_range`: the sample lies within the requested
/// range, here at most 30.
#[verifier::external_body]
fn jitter_percent() -> (r: u64)
    ensures
        r <= 30,
{
    rand::Rng::gen_range(&mut rand::thread_rng(), 0..=30u64)
}

/// The base delay never exceeds the larger of the initial delay and the cap.
proof fn lemma_base_delay_bounded(policy: RetryPolicy, i: int)
    requires
        policy.wf(),
    ensures
        base_delay_spec(policy, i) <= policy.max_delay_ms,
    decreases i,
{
    if i > 0 {
        lemma_base_delay_bounded(policy, i - 1);
    }
}

/// Run the retry schedule against a script of attempt outcomes, one per
/// attempt the policy would make. Never retries a failure that is not
/// Transient: such a failure ends the run on its first attempt. A Transient
/// failure is retried until an attempt succeeds, the attempt count reaches
/// the policy's maximum, or the slept delays exhaust the time budget; each
/// slept delay is the previous one doubled (capped), within jitter bounds.
#[verifier::loop_isolation(false)]
pub fn run_retry_schedule(policy: &RetryPolicy, outcomes: &Vec<AttemptOutcome>) -> (r: RetryTrace)
    requires
        policy.wf(),
        outcomes@.len() >= policy.max_attempts,
    ensures
        1 <= r.attempts <= policy.max_attempts,
        r.delays_ms@.len() == r.attempts - 1,
        forall|i: int|
            0 <= i < r.delays_ms@.len() ==> delay_in_bounds(*policy, i, #[trigger] r.delays_ms@[i]),
        all_transient_failures(outcomes@, r.attempts - 1),
        r.end == RetryEnd::Succeeded ==> outcomes@[r.attempts - 1] == AttemptOutcome::Success,
        r.end == RetryEnd::NonTransient ==> (outcomes@[r.attempts - 1] matches
            AttemptOutcome::Failure { class } && class != RetryClass::Transient),
        r.end == RetryEnd::AttemptsExhausted ==> r.attempts == policy.max_attempts && outcomes@[
            r.attempts - 1
        ] matches AttemptOutcome::Failure { .. },
        r.end == RetryEnd::BudgetExhausted ==> outcomes@[r.attempts - 1] matches
            AttemptOutcome::Failure { .. },
        // The budget stops a run only once the slept delays have used it up;
        // under a sufficient budget a transient failure is retried until the
        // attempt count runs out.
        r.end == RetryEnd::BudgetExhausted ==> sum_delays(r.delays_ms@)
            >= policy.max_total_time_ms,
        (outcomes@[0] matches AttemptOutcome::Failure { class } && class != RetryClass::Transient)
            ==> r.attempts == 1,
{
    let mut delays: Vec<u64> = Vec::new();
    let mut base: u64 = policy.initial_delay_ms;
    let mut elapsed: u128 = 0;
    let mut k: u32 = 0;
    loop
        invariant
            k < policy.max_attempts,
            delays@.len() == k,
            elapsed == sum_delays(delays@),
            forall|i: int| 0 <= i < k ==> delay_in_bounds(*policy, i, #[trigger] delays@[i]),
            all_transient_failures(outcomes@, k as int),
            base == base_delay_spec(*policy, k as int),
            base <= policy.max_delay_ms,
        decreases policy.max_attempts - k,
    {
        let outcome = outcomes[k as usize];
        match outcome {
            AttemptOutcome::Success => {
                return RetryTrace { attempts: k + 1, delays_ms: delays, end: RetryEnd::Succeeded };
            },
            AttemptOutcome::Failure { class } => {
                if k + 1 >= policy.max_attempts {
                    return RetryTrace {
                        attempts: k + 1,
                        delays_ms: delays,
                        end: RetryEnd::AttemptsExhausted,
                    };
                }
                if !matches!(class, RetryClass::Transient) {
                    return RetryTrace {
                        attempts: k + 1,
                        delays_ms: delays,
                        end: RetryEnd::NonTransient,
                    };
                }
                if elapsed >= policy.max_total_time_ms as u128 {
                    return RetryTrace {
                        attempts: k + 1,
                        delays_ms: delays,
                        end: RetryEnd::BudgetExhausted,
                    };
                }
                let actual: u64 = if policy.jitter {
                    let j = jitter_percent();
                    proof {
                        assert(base * (100 + j) <= base * 130) by (nonlinear_arith)
                            requires
                                j <= 30,
                                base >= 0,
                        ;
                        assert(base * 100 <= base * (100 + j)) by (nonlinear_arith)
                            requires
                                j >= 0,
                                base >= 0,
                        ;
                        assert(base * 100 / 100 == base) by (nonlinear_arith);
                        assert((base * 100) / 100 <= (base * (100 + j)) / 100 <= (base * 130)
                            / 100) by (nonlinear_arith)
                            requires
                                base * 100 <= base * (100 + j) <= base * 130,
                        ;
                    }
                    (base * (100 + j)) / 100
                } else {
                    base
                };
                let ghost delays0 = delays@;
                delays.push(actual);
                elapsed = elapsed + (actual as u128);
                proof {
                    assert(delays@.drop_last() =~= delays0);
                }
                base = if base > policy.max_delay_ms / 2 {
                    policy.max_delay_ms
                } else {
                    base * 2
                };
                proof {
                    assert(base == base_delay_spec(*policy, k + 1)) by {
                        assert(base_delay_spec(*policy, k as int) * 2 > policy.max_delay_ms
                            <==> base_delay_spec(*policy, k as int) > policy.max_delay_ms / 2)
                            by (nonlinear_arith);
                    }
                    lemma_base_delay_bounded(*policy, k + 1);
                }
                k = k + 1;
            },
        }
    }
}

} // verus!
