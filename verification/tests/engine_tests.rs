//! End-to-end tests of the orchestration engine: plan structure and hashing,
//! step-wise execution with phase aborts, lock exclusivity and deadlines,
//! retry classification and backoff, and checkpoint round trips.

use bootstrap_repo_cli::checkpoint::Checkpoint;
use bootstrap_repo_cli::config::{Config, Profile, ProfileEntry};
use bootstrap_repo_cli::errors::BootstrapError;
use bootstrap_repo_cli::executor::{Execution, StepOutcome};
use bootstrap_repo_cli::lock::{acquire_schedule_outcome, LockManager};
use bootstrap_repo_cli::plan::{ExecutionPlan, StepAction};
use bootstrap_repo_cli::registry::{Capability, InstallerRegistry};
use bootstrap_repo_cli::lock::{effective_max_wait, next_attempt_timeout};
use bootstrap_repo_cli::progress::{choose_mode, ProgressMode};
use bootstrap_repo_cli::retry::{
    classify_error, classify_io_error, run_retry_schedule, AttemptOutcome, IoKind, RetryClass,
    RetryEnd, RetryPolicy,
};

fn two_tool_registry() -> InstallerRegistry {
    let mut registry = InstallerRegistry::empty();
    registry.register(Capability::new("A", "A", "tool A", Vec::new(), false));
    registry.register(Capability::new(
        "B",
        "B",
        "tool B",
        vec!["A".to_string()],
        false,
    ));
    registry
}

fn dev_config(tools: Vec<&str>) -> Config {
    let mut config = Config::default();
    config.profiles.push(ProfileEntry {
        name: "dev".to_string(),
        profile: Profile {
            tools: tools.into_iter().map(|s| s.to_string()).collect(),
        },
    });
    config
}

#[test]
fn test_plan_structure_dev_profile() {
    let registry = two_tool_registry();
    let config = dev_config(vec!["A", "B"]);
    let plan = ExecutionPlan::compute(&registry, &config, "dev").unwrap();

    assert_eq!(plan.phases.len(), 3);
    assert_eq!(plan.total_steps, 6);

    assert_eq!(plan.phases[0].name, "Detection");
    assert!(plan.phases[0].can_parallelize);
    let detect_ids: Vec<&str> = plan.phases[0].steps.iter().map(|s| s.id.as_str()).collect();
    assert_eq!(detect_ids, vec!["detect-A", "detect-B"]);

    assert_eq!(plan.phases[1].name, "Installation");
    assert!(!plan.phases[1].can_parallelize);
    let install_ids: Vec<&str> = plan.phases[1].steps.iter().map(|s| s.id.as_str()).collect();
    assert_eq!(install_ids, vec!["install-A", "install-B"]);
    // B's install step depends on A's install step.
    assert_eq!(plan.phases[1].steps[1].dependencies, vec!["install-A"]);
    // Neither tool is concurrency-safe, so both hold the package-manager lock.
    assert_eq!(
        plan.phases[1].steps[0].required_locks,
        vec!["package_manager_lock"]
    );

    assert_eq!(plan.phases[2].name, "Verification");
    assert!(plan.phases[2].can_parallelize);
    let verify_ids: Vec<&str> = plan.phases[2].steps.iter().map(|s| s.id.as_str()).collect();
    assert_eq!(verify_ids, vec!["verify-A", "verify-B"]);
    assert_eq!(plan.phases[2].steps[0].dependencies, vec!["install-A"]);

    match plan.phases[0].steps[0].action {
        StepAction::Detect => {}
        _ => panic!("expected a detect action"),
    }
}

#[test]
fn test_plan_hash_pure_and_sensitive() {
    let registry = two_tool_registry();
    let config = dev_config(vec!["A", "B"]);
    let plan1 = ExecutionPlan::compute(&registry, &config, "dev").unwrap();
    let plan2 = ExecutionPlan::compute(&registry, &config, "dev").unwrap();

    // Identical inputs twice yield identical hashes.
    assert_eq!(plan1.compute_hash(), plan2.compute_hash());
    assert_eq!(plan1.compute_hash(), plan1.compute_hash());

    // Adding a tool changes the hash.
    let smaller = dev_config(vec!["A"]);
    let plan3 = ExecutionPlan::compute(&registry, &smaller, "dev").unwrap();
    assert_ne!(plan1.compute_hash(), plan3.compute_hash());
}

#[test]
fn test_executor_full_run() {
    let registry = two_tool_registry();
    let config = dev_config(vec!["A", "B"]);
    let plan = ExecutionPlan::compute(&registry, &config, "dev").unwrap();

    let mut exec = Execution::new(plan);
    let mut seen: Vec<String> = Vec::new();
    while !exec.done() {
        let (id, action_is_install) = {
            let step = exec.current().unwrap();
            (
                step.id.clone(),
                matches!(step.action, StepAction::Install),
            )
        };
        seen.push(id);
        if action_is_install {
            exec.submit(
                StepOutcome::Installed {
                    result: bootstrap_repo_cli::executor::InstallResult {
                        version: bootstrap_repo_cli::version::Version::new(1, 0, 0),
                        installed_new: true,
                        log_messages: Vec::new(),
                    },
                },
                5,
            );
        } else {
            exec.submit(StepOutcome::Detected { version: None }, 1);
        }
    }
    assert_eq!(
        seen,
        vec!["detect-A", "detect-B", "install-A", "install-B", "verify-A", "verify-B"]
    );
    assert_eq!(exec.results.len(), 6);
    // Results arrive in submission order, one per step.
    assert_eq!(exec.results[2].step_id, "install-A");
    assert!(exec.results[2].success);
}

#[test]
fn test_executor_install_failure_aborts_phase() {
    let registry = two_tool_registry();
    let config = dev_config(vec!["A", "B"]);
    let plan = ExecutionPlan::compute(&registry, &config, "dev").unwrap();

    let mut exec = Execution::new(plan);
    // Detection phase: both steps report absence.
    exec.submit(StepOutcome::Detected { version: None }, 1);
    exec.submit(StepOutcome::Detected { version: None }, 1);

    // Installation phase: A's install fails hard.
    let step_id = exec.current().unwrap().id.clone();
    assert_eq!(step_id, "install-A");
    exec.submit(
        StepOutcome::InstallFailed {
            error: BootstrapError::InstallFailed {
                tool: "A".to_string(),
                exit_code: 7,
                stderr: "boom".to_string(),
            },
        },
        3,
    );

    // B's install step is never handed out: the phase was abandoned and
    // execution continues with Verification.
    let next_id = exec.current().unwrap().id.clone();
    assert_eq!(next_id, "verify-A");

    // A's result is recorded with success=false and the underlying failure.
    let a_result = &exec.results[2];
    assert_eq!(a_result.step_id, "install-A");
    assert!(!a_result.success);
    match &a_result.error {
        Some(BootstrapError::InstallFailed { tool, exit_code, .. }) => {
            assert_eq!(tool, "A");
            assert_eq!(*exit_code, 7);
        }
        _ => panic!("expected the install failure to be recorded"),
    }

    // No result for B's install is ever produced.
    exec.submit(StepOutcome::Verified {
        result: bootstrap_repo_cli::executor::VerifyResult {
            success: false,
            version: None,
            issues: vec!["A missing".to_string()],
        },
    }, 1);
    exec.submit(StepOutcome::Verified {
        result: bootstrap_repo_cli::executor::VerifyResult {
            success: false,
            version: None,
            issues: vec!["B missing".to_string()],
        },
    }, 1);
    assert!(exec.done());
    assert!(exec.results.iter().all(|r| r.step_id != "install-B"));
}

#[test]
fn test_lock_acquire_release() {
    let mut manager = LockManager::new();

    let guard = manager.try_acquire("brew_lock").unwrap();
    assert_eq!(guard.lock_name(), "brew_lock");

    manager.release(guard);

    // Should be able to acquire again after release.
    let guard2 = manager.try_acquire("brew_lock").unwrap();
    assert_eq!(guard2.lock_name(), "brew_lock");
}

#[test]
fn test_lock_contention() {
    let mut manager = LockManager::new();

    let _guard = manager.try_acquire("brew_lock").expect("Should acquire lock");

    // A second acquisition of the held lock fails immediately.
    let result = manager.try_acquire("brew_lock");
    assert!(result.is_err());

    // Other locks stay acquirable.
    assert!(manager.try_acquire("apt_lock").is_ok());
}

#[test]
fn test_unknown_lock() {
    let mut manager = LockManager::new();
    let result = manager.try_acquire("unknown_lock");
    assert!(result.is_err());
    let msg = result.err().unwrap().message();
    assert!(msg.contains("Unknown lock"));
}

#[test]
fn test_lock_deadline_honored() {
    // A lock held for 500 ms with a 100 ms budget fails after about 100 ms,
    // not 500 ms: the deadline is honored.
    let outcome = acquire_schedule_outcome(500, 100, false);
    assert!(!outcome.acquired);
    assert_eq!(outcome.elapsed_ms, 100);

    // The same contention with a large budget eventually succeeds.
    let outcome = acquire_schedule_outcome(500, 10_000, false);
    assert!(outcome.acquired);
    assert!(outcome.elapsed_ms >= 500);
}

#[test]
fn test_retry_never_retries_permanent_or_security() {
    let policy = RetryPolicy::network_default();

    let outcomes = vec![
        AttemptOutcome::Failure { class: RetryClass::Permanent },
        AttemptOutcome::Success,
        AttemptOutcome::Success,
    ];
    let trace = run_retry_schedule(&policy, &outcomes);
    assert_eq!(trace.attempts, 1);
    assert_eq!(trace.end, RetryEnd::NonTransient);
    assert!(trace.delays_ms.is_empty());

    let outcomes = vec![
        AttemptOutcome::Failure { class: RetryClass::Security },
        AttemptOutcome::Success,
        AttemptOutcome::Success,
    ];
    let trace = run_retry_schedule(&policy, &outcomes);
    assert_eq!(trace.attempts, 1);
    assert_eq!(trace.end, RetryEnd::NonTransient);
}

#[test]
fn test_retry_transient_up_to_max_with_doubling_delays() {
    let policy = RetryPolicy::network_default();

    let outcomes = vec![
        AttemptOutcome::Failure { class: RetryClass::Transient },
        AttemptOutcome::Failure { class: RetryClass::Transient },
        AttemptOutcome::Success,
    ];
    let trace = run_retry_schedule(&policy, &outcomes);
    assert_eq!(trace.attempts, 3);
    assert_eq!(trace.end, RetryEnd::Succeeded);
    assert_eq!(trace.delays_ms.len(), 2);
    // Each delay roughly doubles the last, within the jitter bound of +30%.
    assert!(trace.delays_ms[0] >= 1000 && trace.delays_ms[0] <= 1300);
    assert!(trace.delays_ms[1] >= 2000 && trace.delays_ms[1] <= 2600);

    // Attempt-count exhaustion with the unjittered package-manager policy.
    let policy = RetryPolicy::package_manager_default();
    let outcomes = vec![
        AttemptOutcome::Failure { class: RetryClass::Transient },
        AttemptOutcome::Failure { class: RetryClass::Transient },
    ];
    let trace = run_retry_schedule(&policy, &outcomes);
    assert_eq!(trace.attempts, 2);
    assert_eq!(trace.end, RetryEnd::AttemptsExhausted);
    assert_eq!(trace.delays_ms, vec![2000]);
}

#[test]
fn test_error_classification() {
    let checksum_err = BootstrapError::ChecksumMismatch {
        artifact: "test".to_string(),
        expected: "abc".to_string(),
        actual: "def".to_string(),
    };
    assert_eq!(classify_error(&checksum_err), RetryClass::Security);

    let http_err = BootstrapError::HttpError("reset".to_string());
    assert_eq!(classify_error(&http_err), RetryClass::Transient);

    let config_err = BootstrapError::ConfigError("bad".to_string());
    assert_eq!(classify_error(&config_err), RetryClass::Permanent);

    assert_eq!(classify_io_error(IoKind::TimedOut), RetryClass::Transient);
    assert_eq!(classify_io_error(IoKind::NotFound), RetryClass::Permanent);
}

#[test]
fn test_checkpoint_new() {
    let registry = two_tool_registry();
    let config = dev_config(vec!["A", "B"]);
    let plan = ExecutionPlan::compute(&registry, &config, "dev").unwrap();

    let checkpoint = Checkpoint::new(&plan);
    assert_eq!(checkpoint.plan_hash, plan.compute_hash());
    assert!(checkpoint.completed_steps.is_empty());
    assert!(checkpoint.failed_steps.is_empty());
    assert!(checkpoint.is_valid(&plan));
}

#[test]
fn test_checkpoint_marks() {
    let registry = two_tool_registry();
    let config = dev_config(vec!["A"]);
    let plan = ExecutionPlan::compute(&registry, &config, "dev").unwrap();

    let mut checkpoint = Checkpoint::new(&plan);
    checkpoint.mark_completed("step1".to_string());
    checkpoint.mark_completed("step1".to_string());
    checkpoint.mark_failed("step2".to_string());

    assert_eq!(checkpoint.completed_steps.len(), 1);
    assert_eq!(checkpoint.failed_steps.len(), 1);
    assert!(checkpoint.is_completed("step1"));
    assert!(!checkpoint.is_completed("step2"));
}

#[test]
fn test_checkpoint_encode_decode_round_trip() {
    let registry = two_tool_registry();
    let config = dev_config(vec!["A", "B"]);
    let plan = ExecutionPlan::compute(&registry, &config, "dev").unwrap();

    let mut checkpoint = Checkpoint::new(&plan);
    checkpoint.mark_completed("install-A".to_string());
    checkpoint.mark_completed("install-B".to_string());
    checkpoint.mark_failed("verify-B".to_string());

    let bytes = checkpoint.encode();
    let loaded = Checkpoint::decode(bytes.as_slice()).unwrap();

    // The reloaded checkpoint reproduces identical completed/failed sets and
    // the same plan-hash validity verdict.
    assert_eq!(loaded.plan_hash, checkpoint.plan_hash);
    assert_eq!(loaded.timestamp_ms, checkpoint.timestamp_ms);
    assert_eq!(loaded.completed_steps, checkpoint.completed_steps);
    assert_eq!(loaded.failed_steps, checkpoint.failed_steps);
    assert_eq!(loaded.is_valid(&plan), checkpoint.is_valid(&plan));

    // Against a different plan, both agree the checkpoint is stale.
    let other_config = dev_config(vec!["A"]);
    let other_plan = ExecutionPlan::compute(&registry, &other_config, "dev").unwrap();
    assert_eq!(loaded.is_valid(&other_plan), checkpoint.is_valid(&other_plan));
    assert!(!loaded.is_valid(&other_plan));
}

#[test]
fn test_checkpoint_decode_rejects_corrupt_input() {
    assert!(Checkpoint::decode(b"not a checkpoint").is_err());
    assert!(Checkpoint::decode(b"").is_err());

    let registry = two_tool_registry();
    let config = dev_config(vec!["A"]);
    let plan = ExecutionPlan::compute(&registry, &config, "dev").unwrap();
    let mut bytes = Checkpoint::new(&plan).encode();
    // Truncated records are rejected rather than silently discarded.
    bytes.pop();
    assert!(Checkpoint::decode(bytes.as_slice()).is_err());
}

#[test]
fn test_checkpoint_path_shape() {
    if let Some(p) = bootstrap_repo_cli::checkpoint::default_checkpoint_path("myrepo") {
        assert!(p.contains("bootstrap-repo-lint"));
        assert!(p.ends_with("myrepo.ckpt"));
    }
}

#[test]
fn test_progress_mode_choice() {
    assert_eq!(choose_mode(true, false, true), ProgressMode::Json);
    assert_eq!(choose_mode(false, false, true), ProgressMode::Interactive);
    assert_eq!(choose_mode(false, true, true), ProgressMode::Ci);
    assert_eq!(choose_mode(false, false, false), ProgressMode::Ci);
}

#[test]
fn test_lock_backoff_schedule() {
    assert_eq!(effective_max_wait(1000, true), 60_000);
    assert_eq!(effective_max_wait(1000, false), 1000);
    assert_eq!(effective_max_wait(500_000, false), 180_000);
    assert_eq!(next_attempt_timeout(100), 200);
    assert_eq!(next_attempt_timeout(1600), 2000);
    assert_eq!(next_attempt_timeout(2000), 2000);
}

#[test]
fn test_empty_profile_plan() {
    let registry = two_tool_registry();
    let config = dev_config(vec![]);
    let plan = ExecutionPlan::compute(&registry, &config, "dev").unwrap();
    assert_eq!(plan.total_steps, 0);
    assert_eq!(plan.phases.len(), 3);
    assert!(plan.phases.iter().all(|p| p.steps.is_empty()));

    // Execution over an empty plan finishes immediately with no results.
    let exec = Execution::new(plan);
    assert!(exec.done());
    assert!(exec.results.is_empty());
}

#[test]
fn test_resolver_empty_request() {
    let registry = two_tool_registry();
    let resolved = registry.resolve_dependencies(&Vec::new()).unwrap();
    assert!(resolved.is_empty());
}

#[test]
fn test_checkpoint_empty_round_trip() {
    let registry = two_tool_registry();
    let config = dev_config(vec!["A"]);
    let plan = ExecutionPlan::compute(&registry, &config, "dev").unwrap();

    let checkpoint = Checkpoint::new(&plan);
    let loaded = Checkpoint::decode(checkpoint.encode().as_slice()).unwrap();
    assert!(loaded.completed_steps.is_empty());
    assert!(loaded.failed_steps.is_empty());
    assert_eq!(loaded.plan_hash, checkpoint.plan_hash);
    assert!(loaded.is_valid(&plan));
}

#[test]
fn test_verify_failure_carries_joined_issues() {
    let registry = two_tool_registry();
    let config = dev_config(vec!["A"]);
    let plan = ExecutionPlan::compute(&registry, &config, "dev").unwrap();

    let mut exec = Execution::new(plan);
    exec.submit(StepOutcome::Detected { version: None }, 1);
    exec.submit(
        StepOutcome::Installed {
            result: bootstrap_repo_cli::executor::InstallResult {
                version: bootstrap_repo_cli::version::Version::new(1, 0, 0),
                installed_new: true,
                log_messages: Vec::new(),
            },
        },
        1,
    );
    exec.submit(
        StepOutcome::Verified {
            result: bootstrap_repo_cli::executor::VerifyResult {
                success: false,
                version: None,
                issues: vec!["missing binary".to_string(), "bad version".to_string()],
            },
        },
        1,
    );
    let r = exec.results.last().unwrap();
    assert!(!r.success);
    match &r.error {
        Some(BootstrapError::VerificationFailed(m)) => {
            assert_eq!(m, "missing binary; bad version");
        }
        _ => panic!("expected the joined issues in the error text"),
    }
    assert!(r.verify_result.is_some());
}

#[test]
fn test_skipped_step_payload() {
    let registry = two_tool_registry();
    let config = dev_config(vec!["A"]);
    let plan = ExecutionPlan::compute(&registry, &config, "dev").unwrap();

    let mut exec = Execution::new(plan);
    exec.submit(
        StepOutcome::Skipped {
            reason: "dry-run".to_string(),
        },
        1,
    );
    let r = &exec.results[0];
    assert!(r.success);
    let v = r.verify_result.as_ref().unwrap();
    assert!(v.success);
    assert_eq!(v.issues, vec!["Skipped: dry-run"]);
}

#[test]
fn test_lock_acquired_within_deadline() {
    // A lock that frees within the deadline is always acquired, at or after
    // the moment it frees.
    let outcome = acquire_schedule_outcome(250, 1000, false);
    assert!(outcome.acquired);
    assert!(outcome.elapsed_ms >= 250);

    let outcome = acquire_schedule_outcome(0, 0, false);
    assert!(outcome.acquired);
    assert_eq!(outcome.elapsed_ms, 0);
}

#[test]
fn test_retry_budget_exhaustion() {
    // A tiny budget stops a transient run once the slept delays reach it.
    let policy = RetryPolicy {
        max_attempts: 5,
        initial_delay_ms: 10,
        max_delay_ms: 50,
        max_total_time_ms: 15,
        jitter: false,
    };
    let outcomes = vec![
        AttemptOutcome::Failure { class: RetryClass::Transient },
        AttemptOutcome::Failure { class: RetryClass::Transient },
        AttemptOutcome::Failure { class: RetryClass::Transient },
        AttemptOutcome::Failure { class: RetryClass::Transient },
        AttemptOutcome::Failure { class: RetryClass::Transient },
    ];
    let trace = run_retry_schedule(&policy, &outcomes);
    assert_eq!(trace.end, RetryEnd::BudgetExhausted);
    // The slept delays (10 then 20 ms) used up the 15 ms budget.
    assert_eq!(trace.delays_ms, vec![10, 20]);
    assert_eq!(trace.attempts, 3);
}

#[test]
fn test_checkpoint_path_of() {
    let p = bootstrap_repo_cli::checkpoint::checkpoint_path_of("/home/user/.cache", "myrepo");
    assert_eq!(p, "/home/user/.cache/bootstrap-repo-lint/checkpoints/myrepo.ckpt");
}
