//! Tests for the built-in installer metadata and the capability registry.

use bootstrap_repo_cli::installers::{
    ActionlintInstaller, PSScriptAnalyzerInstaller, PerlCriticInstaller, PwshInstaller,
    PPIInstaller, ShellcheckInstaller, ShfmtInstaller,
};
use bootstrap_repo_cli::registry::{Capability, InstallerRegistry};

#[test]
fn test_pwsh_metadata() {
    let installer = PwshInstaller;
    assert_eq!(installer.id(), "pwsh");
    assert_eq!(installer.name(), "PowerShell Core");
    assert!(!installer.concurrency_safe());
}

#[test]
fn test_psscriptanalyzer_metadata() {
    let installer = PSScriptAnalyzerInstaller;
    assert_eq!(installer.id(), "psscriptanalyzer");
    assert_eq!(installer.name(), "PSScriptAnalyzer");
    assert_eq!(installer.dependencies(), vec!["pwsh"]);
    assert!(!installer.concurrency_safe());
}

#[test]
fn actionlint_test_installer_metadata() {
    let installer = ActionlintInstaller;
    assert_eq!(installer.id(), "actionlint");
    assert_eq!(installer.name(), "actionlint");
    assert!(!installer.concurrency_safe());
}

#[test]
fn shellcheck_test_installer_metadata() {
    let installer = ShellcheckInstaller;
    assert_eq!(installer.id(), "shellcheck");
    assert_eq!(installer.name(), "shellcheck");
    assert!(!installer.concurrency_safe());
}

#[test]
fn shfmt_test_installer_metadata() {
    let installer = ShfmtInstaller;
    assert_eq!(installer.id(), "shfmt");
    assert_eq!(installer.name(), "shfmt");
    assert!(!installer.concurrency_safe());
}

#[test]
fn test_perlcritic_metadata() {
    let installer = PerlCriticInstaller;
    assert_eq!(installer.id(), "perlcritic");
    assert_eq!(installer.name(), "Perl::Critic");
    assert!(!installer.concurrency_safe());
}

#[test]
fn test_ppi_metadata() {
    let installer = PPIInstaller;
    assert_eq!(installer.id(), "ppi");
    assert_eq!(installer.name(), "PPI");
    assert!(!installer.concurrency_safe());
}

#[test]
fn test_registry_creation() {
    let registry = InstallerRegistry::new();
    assert!(registry.get("ripgrep").is_some());
    assert!(registry.get("nonexistent").is_none());
}

#[test]
fn test_dependency_resolution() {
    let registry = InstallerRegistry::new();
    let resolved = registry
        .resolve_dependencies(&vec!["ripgrep".to_string(), "python-black".to_string()])
        .unwrap();
    assert!(!resolved.is_empty());
}

#[test]
fn test_registry_replaces_same_id() {
    let mut registry = InstallerRegistry::empty();
    registry.register(Capability::new("tool", "Tool", "first", Vec::new(), false));
    registry.register(Capability::new("tool", "Tool", "second", Vec::new(), true));
    let cap = registry.get("tool").unwrap();
    assert_eq!(cap.description, "second");
    assert!(cap.concurrency_safe);
}

#[test]
fn test_resolver_orders_dependencies_first() {
    let mut registry = InstallerRegistry::empty();
    registry.register(Capability::new("a", "A", "tool a", Vec::new(), false));
    registry.register(Capability::new(
        "b",
        "B",
        "tool b",
        vec!["a".to_string()],
        false,
    ));
    registry.register(Capability::new(
        "c",
        "C",
        "tool c",
        vec!["b".to_string(), "a".to_string()],
        false,
    ));

    let resolved = registry
        .resolve_dependencies(&vec!["c".to_string()])
        .unwrap();
    let ids: Vec<&str> = resolved.iter().map(|c| c.id.as_str()).collect();
    assert_eq!(ids, vec!["a", "b", "c"]);
}

#[test]
fn test_resolver_no_duplicates() {
    let mut registry = InstallerRegistry::empty();
    registry.register(Capability::new("a", "A", "tool a", Vec::new(), false));
    registry.register(Capability::new(
        "b",
        "B",
        "tool b",
        vec!["a".to_string()],
        false,
    ));

    let resolved = registry
        .resolve_dependencies(&vec!["b".to_string(), "a".to_string(), "b".to_string()])
        .unwrap();
    let ids: Vec<&str> = resolved.iter().map(|c| c.id.as_str()).collect();
    assert_eq!(ids, vec!["a", "b"]);
}

#[test]
fn test_resolver_unknown_tool() {
    let registry = InstallerRegistry::new();
    let result = registry.resolve_dependencies(&vec!["no-such-tool".to_string()]);
    match result {
        Err(bootstrap_repo_cli::errors::BootstrapError::ToolNotFound(t)) => {
            assert_eq!(t, "no-such-tool");
        }
        _ => panic!("expected ToolNotFound"),
    }
}

#[test]
fn test_resolver_cycle_fails() {
    let mut registry = InstallerRegistry::empty();
    registry.register(Capability::new(
        "a",
        "A",
        "tool a",
        vec!["b".to_string()],
        false,
    ));
    registry.register(Capability::new(
        "b",
        "B",
        "tool b",
        vec!["a".to_string()],
        false,
    ));

    let result = registry.resolve_dependencies(&vec!["a".to_string()]);
    match result {
        Err(bootstrap_repo_cli::errors::BootstrapError::CyclicDependency) => {}
        _ => panic!("expected CyclicDependency"),
    }
}

#[test]
fn test_resolver_self_cycle_fails() {
    let mut registry = InstallerRegistry::empty();
    registry.register(Capability::new(
        "a",
        "A",
        "tool a",
        vec!["a".to_string()],
        false,
    ));

    let result = registry.resolve_dependencies(&vec!["a".to_string()]);
    match result {
        Err(bootstrap_repo_cli::errors::BootstrapError::CyclicDependency) => {}
        _ => panic!("expected CyclicDependency"),
    }
}
