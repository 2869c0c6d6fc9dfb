//! Named mutual-exclusion resources with deadline and backoff acquisition.
//!
//! The lock table models contention over external shared resources: one
//! package-manager invocation, one shared-cache write, one virtual-environment
//! mutation at a time. Acquisition under a deadline follows a fixed schedule:
//! per-attempt timeouts start at 100 ms and double up to a 2 s cap, with a
//! sleep between attempts, until success or the effective deadline (60 s in CI
//! mode, else the requested wait capped at 180 s) has elapsed.

use vstd::prelude::*;
use vstd::string::StringExecFns;

use crate::errors::{BootstrapError, BootstrapResult};
use crate::strutil::str_eq;

verus! {

/// Lock table: named resources, each free or held.
pub struct LockManager {
    /// The registered lock names, pairwise distinct.
    pub names: Vec<String>,
    /// Whether the lock of the same index is held.
    pub held: Vec<bool>,
}

/// Scoped ownership of one lock slot; handed back to `release`.
pub struct LockGuard {
    /// The name of the held lock.
    pub name: String,
}

impl LockGuard {
    /// Get the held lock's name.
    pub fn lock_name(&self) -> (r: &str)
        ensures
            r@ == self.name@,
    {
        self.name.as_str()
    }
}

/// The index of the first lock with the given name, or -1.
pub open spec fn lock_index(names: Seq<String>, name: Seq<char>, from: int) -> int
    decreases names.len() - from
        when 0 <= from <= names.len()
{
    if from >= names.len() {
        -1
    } else if names[from]@ == name {
        from
    } else {
        lock_index(names, name, from + 1)
    }
}

/// Whether a lock of the given name is registered.
pub open spec fn lock_known(m: LockManager, name: Seq<char>) -> bool {
    exists|k: int| 0 <= k < m.names@.len() && m.names@[k]@ == name
}

/// Whether the lock of the given name is currently held.
pub open spec fn lock_held(m: LockManager, name: Seq<char>) -> bool {
    lock_known(m, name) && m.held@[lock_index(m.names@, name, 0)]
}

/// Whether an immediate acquisition of the named lock would succeed: the name
/// is registered and the lock is free.
pub open spec fn try_acquire_spec(m: LockManager, name: Seq<char>) -> bool {
    lock_known(m, name) && !lock_held(m, name)
}

pub proof fn lemma_lock_index_works(names: Seq<String>, name: Seq<char>, from: int)
    requires
        0 <= from <= names.len(),
    ensures
        lock_index(names, name, from) == -1 ==> forall|k: int|
            from <= k < names.len() ==> names[k]@ != name,
        lock_index(names, name, from) != -1 ==> from <= lock_index(names, name, from)
            < names.len() && names[lock_index(names, name, from)]@ == name && forall|k: int|
            from <= k < lock_index(names, name, from) ==> names[k]@ != name,
    decreases names.len() - from,
{
    if from < names.len() && names[from]@ != name {
        lemma_lock_index_works(names, name, from + 1);
    }
}

/// Law: the lock is mutually exclusive — while it is held, no acquisition of
/// it can succeed; only a release can make an acquisition possible again.
pub proof fn lemma_held_excludes_acquire(m: LockManager, name: Seq<char>)
    requires
        lock_held(m, name),
    ensures
        !try_acquire_spec(m, name),
{
}

impl LockManager {
    /// Whether the table is well formed: one flag per name, names distinct.
    pub open spec fn wf(&self) -> bool {
        &&& self.names@.len() == self.held@.len()
        &&& forall|i: int, j: int|
            0 <= i < j < self.names@.len() ==> self.names@[i]@ != self.names@[j]@
    }

    /// Create the lock table with the fixed, pre-registered resources, all
    /// free: the brew, apt, cache, venv and package-manager locks.
    pub fn new() -> (r: LockManager)
        ensures
            r.wf(),
            r.names@.len() == 5,
            lock_known(r, "brew_lock"@),
            lock_known(r, "apt_lock"@),
            lock_known(r, "cache_lock"@),
            lock_known(r, "venv_lock"@),
            lock_known(r, "package_manager_lock"@),
            // These five are the only registered locks: any other name fails.
            forall|name: Seq<char>|
                lock_known(r, name) ==> (name == "brew_lock"@ || name == "apt_lock"@ || name
                    == "cache_lock"@ || name == "venv_lock"@ || name == "package_manager_lock"@),
            forall|name: Seq<char>| !lock_held(r, name),
    {
        let mut names: Vec<String> = Vec::new();
        names.push("brew_lock".to_owned());
        names.push("apt_lock".to_owned());
        names.push("cache_lock".to_owned());
        names.push("venv_lock".to_owned());
        names.push("package_manager_lock".to_owned());
        let mut held: Vec<bool> = Vec::new();
        held.push(false);
        held.push(false);
        held.push(false);
        held.push(false);
        held.push(false);
        let r = LockManager { names, held };
        proof {
            reveal_strlit("brew_lock");
            reveal_strlit("apt_lock");
            reveal_strlit("cache_lock");
            reveal_strlit("venv_lock");
            reveal_strlit("package_manager_lock");
            assert("brew_lock"@.len() == 9);
            assert("apt_lock"@.len() == 8);
            assert("cache_lock"@.len() == 10);
            assert("venv_lock"@.len() == 9);
            assert("package_manager_lock"@.len() == 20);
            assert("brew_lock"@ != "apt_lock"@);
            assert("brew_lock"@[0] == 'b' && "cache_lock"@[0] == 'c' && "brew_lock"@
                != "cache_lock"@);
            assert("brew_lock"@[0] == 'b' && "venv_lock"@[0] == 'v' && "brew_lock"@
                != "venv_lock"@);
            assert("brew_lock"@ != "package_manager_lock"@);
            assert("apt_lock"@ != "cache_lock"@);
            assert("apt_lock"@ != "venv_lock"@);
            assert("apt_lock"@ != "package_manager_lock"@);
            assert("cache_lock"@ != "venv_lock"@);
            assert("cache_lock"@ != "package_manager_lock"@);
            assert("venv_lock"@ != "package_manager_lock"@);
            assert(r.names@[0]@ == "brew_lock"@);
            assert(r.names@[1]@ == "apt_lock"@);
            assert(r.names@[2]@ == "cache_lock"@);
            assert(r.names@[3]@ == "venv_lock"@);
            assert(r.names@[4]@ == "package_manager_lock"@);
            assert forall|name: Seq<char>| !lock_held(r, name) by {
                if lock_known(r, name) {
                    lemma_lock_index_works(r.names@, name, 0);
                }
            }
            assert forall|name: Seq<char>|
                lock_known(r, name) implies (name == "brew_lock"@ || name == "apt_lock"@ || name
                == "cache_lock"@ || name == "venv_lock"@ || name
                == "package_manager_lock"@) by {
                let k = choose|k: int| 0 <= k < r.names@.len() && r.names@[k]@ == name;
                assert(k == 0 || k == 1 || k == 2 || k == 3 || k == 4);
            }
        }
        r
    }

    /// Try to acquire a lock without waiting. Succeeds exactly when the name
    /// is registered and the lock is free; after a success no further
    /// acquisition of the same name can succeed before a release. Locks of
    /// other names are untouched.
    #[verifier::loop_isolation(false)]
    pub fn try_acquire(&mut self, lock_name: &str) -> (r: BootstrapResult<LockGuard>)
        requires
            old(self).wf(),
        ensures
            final(self).wf(),
            r is Ok <==> try_acquire_spec(*old(self), lock_name@),
            match r {
                Ok(g) => g.name@ == lock_name@ && lock_held(*final(self), lock_name@)
                    && !try_acquire_spec(*final(self), lock_name@),
                Err(e) => *final(self) == *old(self) && (e matches BootstrapError::ConfigError(m)
                    && (!lock_known(*old(self), lock_name@) ==> m@ == "Unknown lock: "@
                    + lock_name@) && (lock_known(*old(self), lock_name@) ==> m@ == "Lock "@
                    + lock_name@ + " is currently held"@)),
            },
            forall|other: Seq<char>|
                other != lock_name@ ==> lock_held(*final(self), other) == lock_held(
                    *old(self),
                    other,
                ),
            lock_known(*final(self), lock_name@) == lock_known(*old(self), lock_name@),
    {
        proof {
            lemma_lock_index_works(self.names@, lock_name@, 0);
        }
        let n = self.names.len();
        let mut k: usize = 0;
        while k < n
            invariant
                *self == *old(self),
                k <= n == self.names@.len(),
                forall|t: int| 0 <= t < k ==> self.names@[t]@ != lock_name@,
            decreases n - k,
        {
            if str_eq(self.names[k].as_str(), lock_name) {
                proof {
                    lemma_lock_index_unique(self.names@, lock_name@, k as int);
                }
                if self.held[k] {
                    let msg = "Lock ".to_owned().concat(lock_name).concat(" is currently held");
                    return Err(BootstrapError::ConfigError(msg));
                }
                let ghost before = *self;
                self.held.set(k, true);
                proof {
                    assert(self.names@ == before.names@);
                    assert(lock_index(self.names@, lock_name@, 0) == k as int);
                    assert(lock_held(*self, lock_name@));
                    assert forall|other: Seq<char>| other != lock_name@ implies lock_held(
                        *self,
                        other,
                    ) == lock_held(before, other) by {
                        if lock_known(before, other) {
                            lemma_lock_index_works(self.names@, other, 0);
                            let w = lock_index(self.names@, other, 0);
                            assert(w != k as int);
                        }
                    }
                }
                return Ok(LockGuard { name: lock_name.to_owned() });
            }
            k = k + 1;
        }
        let msg = "Unknown lock: ".to_owned().concat(lock_name);
        Err(BootstrapError::ConfigError(msg))
    }

    /// Release a held lock, making it acquirable again. A guard whose name is
    /// not registered releases nothing.
    #[verifier::loop_isolation(false)]
    pub fn release(&mut self, guard: LockGuard)
        requires
            old(self).wf(),
        ensures
            final(self).wf(),
            lock_known(*old(self), guard.name@) ==> !lock_held(*final(self), guard.name@)
                && try_acquire_spec(*final(self), guard.name@),
            !lock_known(*old(self), guard.name@) ==> *final(self) == *old(self),
            forall|other: Seq<char>|
                other != guard.name@ ==> lock_held(*final(self), other) == lock_held(
                    *old(self),
                    other,
                ),
    {
        proof {
            lemma_lock_index_works(self.names@, guard.name@, 0);
        }
        let n = self.names.len();
        let mut k: usize = 0;
        while k < n
            invariant
                *self == *old(self),
                k <= n == self.names@.len(),
                forall|t: int| 0 <= t < k ==> self.names@[t]@ != guard.name@,
            decreases n - k,
        {
            if str_eq(self.names[k].as_str(), guard.name.as_str()) {
                proof {
                    lemma_lock_index_unique(self.names@, guard.name@, k as int);
                }
                let ghost before = *self;
                self.held.set(k, false);
                proof {
                    assert(self.names@ == before.names@);
                    assert(lock_index(self.names@, guard.name@, 0) == k as int);
                    assert forall|other: Seq<char>| other != guard.name@ implies lock_held(
                        *self,
                        other,
                    ) == lock_held(before, other) by {
                        if lock_known(before, other) {
                            lemma_lock_index_works(self.names@, other, 0);
                            let w = lock_index(self.names@, other, 0);
                            assert(w != k as int);
                        }
                    }
                }
                return ;
            }
            k = k + 1;
        }
    }
}

/// Any index holding the name is the first one when all before it differ.
proof fn lemma_lock_index_unique(names: Seq<String>, name: Seq<char>, w: int)
    requires
        0 <= w < names.len(),
        names[w]@ == name,
        forall|t: int| 0 <= t < w ==> names[t]@ != name,
    ensures
        lock_index(names, name, 0) == w,
{
    lemma_lock_index_unique_from(names, name, w, 0);
}

proof fn lemma_lock_index_unique_from(names: Seq<String>, name: Seq<char>, w: int, from: int)
    requires
        0 <= from <= w < names.len(),
        names[w]@ == name,
        forall|t: int| from <= t < w ==> names[t]@ != name,
    ensures
        lock_index(names, name, from) == w,
    decreases w - from,
{
    if from < w {
        lemma_lock_index_unique_from(names, name, w, from + 1);
    }
}

/// The effective acquisition deadline: 60 s in CI mode, else the requested
/// wait capped at 180 s.
pub open spec fn effective_deadline(max_wait_ms: u64, ci_mode: bool) -> u64 {
    if ci_mode {
        60000u64
    } else if max_wait_ms <= 180000u64 {
        max_wait_ms
    } else {
        180000u64
    }
}

/// Compute the effective acquisition deadline.
pub fn effective_max_wait(max_wait_ms: u64, ci_mode: bool) -> (r: u64)
    ensures
        r == effective_deadline(max_wait_ms, ci_mode),
        r <= 180000,
{
    if ci_mode {
        60000
    } else if max_wait_ms <= 180000 {
        max_wait_ms
    } else {
        180000
    }
}

/// The next per-attempt timeout: the current one doubled, capped at 2 s.
pub fn next_attempt_timeout(cur_ms: u64) -> (r: u64)
    requires
        cur_ms <= 2000,
    ensures
        r == if 2 * cur_ms <= 2000 {
            2 * cur_ms as int
        } else {
            2000int
        },
        r <= 2000,
{
    if cur_ms <= 1000 {
        2 * cur_ms
    } else {
        2000
    }
}

/// The outcome of a timed acquisition.
pub struct AcquireOutcome {
    /// Whether the lock was acquired
    pub acquired: bool,
    /// Time from the first attempt until the outcome, in milliseconds
    pub elapsed_ms: u64,
    /// Number of attempts made
    pub attempts: u32,
}

/// Play out the timed acquisition schedule against a lock that becomes free
/// `lock_free_at_ms` after the first attempt starts. Attempt timeouts start
/// at 100 ms and double up to a 2 s cap, with an equal sleep between
/// attempts. The deadline is honored: a failure is reported as soon as the
/// elapsed time reaches the effective deadline — at most one capped attempt
/// past it — regardless of how long the lock stays held.
#[verifier::loop_isolation(false)]
pub fn acquire_schedule_outcome(lock_free_at_ms: u64, max_wait_ms: u64, ci_mode: bool) -> (r:
    AcquireOutcome)
    ensures
        // A lock that frees within the deadline is always acquired.
        lock_free_at_ms <= effective_deadline(max_wait_ms, ci_mode) ==> r.acquired,
        r.acquired ==> lock_free_at_ms <= r.elapsed_ms < effective_deadline(max_wait_ms, ci_mode)
            + 2000,
        !r.acquired ==> r.elapsed_ms >= effective_deadline(max_wait_ms, ci_mode),
        !r.acquired ==> r.elapsed_ms <= effective_deadline(max_wait_ms, ci_mode) + 2000,
        r.elapsed_ms <= effective_deadline(max_wait_ms, ci_mode) + 2000,
        r.attempts >= 1,
{
    let deadline = effective_max_wait(max_wait_ms, ci_mode);
    let mut elapsed: u64 = 0;
    let mut timeout: u64 = 100;
    let mut attempts: u32 = 0;
    loop
        invariant
            100 <= timeout <= 2000,
            elapsed < deadline || (elapsed == 0 && attempts == 0),
            elapsed <= 182000,
            deadline <= 180000,
            deadline == effective_deadline(max_wait_ms, ci_mode),
            200 * (attempts as int) <= elapsed as int,
            elapsed == 0 ==> timeout == 100,
        decreases 2 * deadline - elapsed,
    {
        proof {
            assert(attempts < 1000);
        }
        attempts = attempts + 1;
        // One attempt: wait up to `timeout` for the lock to come free.
        if lock_free_at_ms <= elapsed {
            return AcquireOutcome { acquired: true, elapsed_ms: elapsed, attempts };
        }
        if lock_free_at_ms <= elapsed + timeout {
            return AcquireOutcome { acquired: true, elapsed_ms: lock_free_at_ms, attempts };
        }
        elapsed = elapsed + timeout;
        if elapsed >= deadline {
            return AcquireOutcome { acquired: false, elapsed_ms: elapsed, attempts };
        }
        // Sleep with backoff before the next attempt, then double the timeout.
        let backoff = timeout;
        if lock_free_at_ms <= elapsed + backoff {
            // The lock comes free during the sleep; the next attempt takes it
            // as soon as it wakes.
            return AcquireOutcome {
                acquired: true,
                elapsed_ms: elapsed + backoff,
                attempts: attempts + 1,
            };
        }
        elapsed = elapsed + backoff;
        if elapsed >= deadline {
            return AcquireOutcome { acquired: false, elapsed_ms: elapsed, attempts };
        }
        timeout = next_attempt_timeout(timeout);
    }
}

} // verus!
