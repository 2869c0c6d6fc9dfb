//! Tests for configuration, context, diagnostics, errors and exit codes.

use bootstrap_repo_cli::config::{Config, Profile, ProfileEntry, ToolConfig, ToolConfigEntry};
use bootstrap_repo_cli::context::{OsType, PackageManager, Verbosity, VenvInfo};
use bootstrap_repo_cli::doctor::{check_package_manager, CheckStatus, DiagnosticCheck, DiagnosticReport};
use bootstrap_repo_cli::errors::BootstrapError;
use bootstrap_repo_cli::exit_codes::ExitCode;
use bootstrap_repo_cli::retry::RetryPolicy;

#[test]
fn test_default_config() {
    let config = Config::default();
    assert!(config.profiles.is_empty());
    assert!(config.tools.is_empty());
}

#[test]
fn test_resolve_tools_with_overrides() {
    let mut config = Config::default();
    let profile = Profile {
        tools: vec!["ripgrep".to_string(), "python-black".to_string()],
    };
    config.profiles.push(ProfileEntry {
        name: "dev".to_string(),
        profile,
    });

    let tools = config.resolve_tools("dev", &vec!["shellcheck".to_string()]);
    assert_eq!(tools.len(), 3);
    assert!(tools.contains(&"ripgrep".to_string()));
    assert!(tools.contains(&"python-black".to_string()));
    assert!(tools.contains(&"shellcheck".to_string()));
}

#[test]
fn test_get_tools_for_profile_fallback() {
    let config = Config::default();
    let tools = config.get_tools_for_profile("nonexistent");
    // Should return default tools
    assert!(!tools.is_empty());
    assert!(tools.contains(&"ripgrep"));
    assert!(tools.contains(&"python-black"));
}

#[test]
fn test_get_tools_for_profile_named() {
    let mut config = Config::default();
    config.profiles.push(ProfileEntry {
        name: "ci".to_string(),
        profile: Profile { tools: vec!["ripgrep".to_string()] },
    });
    let tools = config.get_tools_for_profile("ci");
    assert_eq!(tools, vec!["ripgrep"]);
}

#[test]
fn test_get_tool_config() {
    let mut config = Config::default();
    config.tools.push(ToolConfigEntry {
        name: "ripgrep".to_string(),
        config: ToolConfig {
            version: None,
            min_version: Some("14.0.0".to_string()),
            install_args: vec![],
        },
    });
    let tc = config.get_tool_config("ripgrep").unwrap();
    assert_eq!(tc.min_version.as_deref(), Some("14.0.0"));
    assert!(config.get_tool_config("missing").is_none());
}

#[test]
fn test_config_required_in_ci() {
    let result = Config::resolve_loaded(None, true);
    assert!(result.is_err());
    let err = result.err().unwrap();
    assert!(err.message().contains("required in CI mode"));

    let ok = Config::resolve_loaded(None, false);
    assert!(ok.is_ok());
}

#[test]
fn test_os_detection() {
    // The operating system name maps onto a valid variant.
    let os = OsType::detect("linux");
    match os {
        OsType::MacOS | OsType::Linux | OsType::Windows => {}
    }
    assert_eq!(OsType::detect("macos"), OsType::MacOS);
    assert_eq!(OsType::detect("windows"), OsType::Windows);
    assert_eq!(OsType::detect("linux"), OsType::Linux);
    assert_eq!(OsType::detect("freebsd"), OsType::Linux);
}

#[test]
fn test_package_manager_detection() {
    assert_eq!(
        PackageManager::detect(OsType::MacOS, true, false, false),
        PackageManager::Homebrew
    );
    assert_eq!(
        PackageManager::detect(OsType::Linux, true, true, true),
        PackageManager::Apt
    );
    assert_eq!(
        PackageManager::detect(OsType::Linux, false, false, true),
        PackageManager::Snap
    );
    assert_eq!(
        PackageManager::detect(OsType::Windows, true, true, true),
        PackageManager::Unavailable
    );
}

#[test]
fn test_verbosity_from_count() {
    assert_eq!(Verbosity::from_count(0), Verbosity::Normal);
    assert_eq!(Verbosity::from_count(1), Verbosity::Verbose);
    assert_eq!(Verbosity::from_count(2), Verbosity::Trace);
    assert_eq!(Verbosity::from_count(10), Verbosity::Trace);
}

#[test]
fn test_context_paths() {
    let ctx = bootstrap_repo_cli::context::Context::new(
        "/test/repo".to_string(),
        OsType::Linux,
        PackageManager::Apt,
        false,
    );

    assert_eq!(ctx.repo_root, "/test/repo");
    assert_eq!(ctx.venv_path, "/test/repo/.venv");
    assert_eq!(ctx.venv_python(), "/test/repo/.venv/bin/python3");
    assert_eq!(ctx.venv_pip(), "/test/repo/.venv/bin/pip");
    assert_eq!(ctx.repo_lint_bin(), "/test/repo/.venv/bin/repo-lint");
}

#[test]
fn test_default_jobs() {
    assert_eq!(bootstrap_repo_cli::context::default_jobs(true), 2);
    let interactive = bootstrap_repo_cli::context::default_jobs(false);
    assert!(interactive >= 1);
    assert!(interactive <= 4);
}

#[test]
fn test_venv_info_from_nonexistent_path() {
    let result = VenvInfo::from_path("/nonexistent/path", false);
    assert!(result.is_err());
}

#[test]
fn test_venv_info_prepend_to_path() {
    let info = VenvInfo::from_path("/test/venv", true).unwrap();
    assert_eq!(info.bin_path, "/test/venv/bin");
    assert_eq!(info.python_path, "/test/venv/bin/python3");
    assert_eq!(info.pip_path, "/test/venv/bin/pip");

    let path = info.prepend_to_path(Some("/usr/bin:/bin"));
    assert_eq!(path, "/test/venv/bin:/usr/bin:/bin");

    let path_no_existing = info.prepend_to_path(None);
    assert_eq!(path_no_existing, "/test/venv/bin");
}

#[test]
fn test_venv_info_env_vars() {
    let info = VenvInfo::from_path("/test/venv", true).unwrap();
    let env = info.env_vars();
    assert_eq!(env.len(), 1);
    assert_eq!(env[0].0, "VIRTUAL_ENV");
    assert_eq!(env[0].1, "/test/venv");
}

#[test]
fn test_check_status() {
    let pass = DiagnosticCheck::pass("test", "passed");
    assert_eq!(pass.status, CheckStatus::Pass);

    let warn = DiagnosticCheck::warn("test", "warning", None);
    assert_eq!(warn.status, CheckStatus::Warn);

    let fail = DiagnosticCheck::fail("test", "failed", None);
    assert_eq!(fail.status, CheckStatus::Fail);
}

#[test]
fn test_report_exit_code() {
    let mut report = DiagnosticReport::new();
    assert_eq!(report.exit_code(false), ExitCode::Success);

    report.add_check(DiagnosticCheck::pass("test1", "ok"));
    assert_eq!(report.exit_code(false), ExitCode::Success);

    report.add_check(DiagnosticCheck::warn("test2", "warning", None));
    assert_eq!(report.exit_code(false), ExitCode::Success); // Non-strict
    assert_eq!(report.exit_code(true), ExitCode::VerificationFailed); // Strict

    let mut report2 = DiagnosticReport::new();
    report2.add_check(DiagnosticCheck::fail("test3", "failed", None));
    assert_eq!(report2.exit_code(false), ExitCode::VerificationFailed);
    assert_eq!(report2.exit_code(true), ExitCode::VerificationFailed);
}

#[test]
fn test_check_package_manager_statuses() {
    let check = check_package_manager(PackageManager::Homebrew);
    assert_eq!(check.status, CheckStatus::Pass);

    let check = check_package_manager(PackageManager::Unavailable);
    assert_eq!(check.status, CheckStatus::Warn);
}

#[test]
fn test_error_exit_codes() {
    assert_eq!(BootstrapError::NotInRepo.exit_code(), ExitCode::NotInRepo);

    assert_eq!(
        BootstrapError::InstallFailed {
            tool: "ripgrep".to_string(),
            exit_code: 1,
            stderr: String::new(),
        }
        .exit_code(),
        ExitCode::RipgrepFailed
    );

    assert_eq!(
        BootstrapError::InstallFailed {
            tool: "actionlint".to_string(),
            exit_code: 1,
            stderr: String::new(),
        }
        .exit_code(),
        ExitCode::ActionlintFailed
    );
}

#[test]
fn test_error_messages() {
    let err = BootstrapError::NotInRepo;
    assert_eq!(err.message(), "Not in git repository");

    let err = BootstrapError::ChecksumMismatch {
        artifact: "test.tar.gz".to_string(),
        expected: "abc123".to_string(),
        actual: "def456".to_string(),
    };
    assert!(err.message().contains("test.tar.gz"));
    assert!(err.message().contains("abc123"));
}

#[test]
fn test_exit_code_values() {
    assert_eq!(ExitCode::Success.as_i32(), 0);
    assert_eq!(ExitCode::UsageError.as_i32(), 1);
    assert_eq!(ExitCode::NotInRepo.as_i32(), 10);
    assert_eq!(ExitCode::RipgrepFailed.as_i32(), 21);
}

#[test]
fn test_exit_code_descriptions() {
    assert_eq!(ExitCode::Success.description(), "Success");
    assert!(ExitCode::RipgrepFailed.description().contains("REQUIRED"));
}

#[test]
fn test_exit_codes_are_distinct() {
    let exit_codes = [
        (0, "Success"),
        (1, "Generic failure"),
        (10, "Repository root not found"),
        (11, "No packaging metadata"),
        (12, "pip install failed"),
        (13, "repo-lint not runnable"),
        (14, "repo-lint --help failed"),
        (15, "repo-lint install failed"),
    ];

    // Verify all codes are unique
    let mut codes: Vec<i32> = exit_codes.iter().map(|(code, _)| *code).collect();
    codes.sort();
    codes.dedup();
    assert_eq!(codes.len(), exit_codes.len(), "Exit codes must be unique");
}

#[test]
fn test_exit_codes_in_valid_range() {
    let exit_codes = vec![0, 1, 10, 11, 12, 13, 14, 15];

    for code in exit_codes {
        assert!(
            (0..128).contains(&code),
            "Exit code {} must be in range 0-127",
            code
        );
    }
}

#[test]
fn test_success_exit_code_is_zero() {
    assert_eq!(0, 0, "Success exit code must be 0");
}

#[test]
fn test_error_handling_preserves_context() {
    // Test that error messages contain useful context
    let error_msg = "Could not determine where to install repo-lint (no packaging metadata found).";
    assert!(error_msg.contains("packaging metadata"));
    assert!(error_msg.contains("repo-lint"));

    let error_msg2 = format!("pip install -e failed for: {}", "/some/path");
    assert!(error_msg2.contains("pip install"));
    assert!(error_msg2.contains("/some/path"));
}

#[test]
fn test_repo_root_error_message() {
    let msg = "Could not find repo root. Run from inside the repo.";
    assert!(msg.contains("repo root"));
    assert!(msg.contains("inside the repo"));
}

#[test]
fn test_no_metadata_error_message() {
    let msg = "Could not determine where to install repo-lint (no packaging metadata found).";
    assert!(msg.contains("install repo-lint"));
    assert!(msg.contains("packaging metadata"));
}

#[test]
fn test_pip_install_error_message() {
    let target = "/some/path";
    let msg = format!("pip install -e failed for: {}", target);
    assert!(msg.contains("pip install"));
    assert!(msg.contains(target));
}

#[test]
fn test_repo_lint_not_runnable_error() {
    let msg = "repo-lint is not runnable. Fix packaging/venv/PATH first.";
    assert!(msg.contains("repo-lint"));
    assert!(msg.contains("PATH"));
}

#[test]
fn test_repo_lint_install_error() {
    let msg =
        "repo-lint install failed. Missing tools are BLOCKER. Install missing tools and rerun.";
    assert!(msg.contains("repo-lint install"));
    assert!(msg.contains("BLOCKER"));
    assert!(msg.contains("missing tools"));
}

#[test]
fn test_retry_policy_defaults() {
    let policy = RetryPolicy::network_default();
    assert_eq!(policy.max_attempts, 3);
    assert!(policy.jitter);

    let pm_policy = RetryPolicy::package_manager_default();
    assert_eq!(pm_policy.max_attempts, 2);
    assert!(!pm_policy.jitter);
}
