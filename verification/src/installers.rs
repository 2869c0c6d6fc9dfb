//! The built-in tool capabilities.
//!
//! Each installer type carries the metadata of one tool: its id, display
//! name, description, dependency ids, and concurrency flag. The operations
//! that detect, install and verify a tool run external commands and live in
//! the driving binary; the orchestrator consumes only these descriptors.

use vstd::prelude::*;

use crate::registry::{cap_of, reg_contains, CapView, Capability, InstallerRegistry};

verus! {

/// The capability descriptor of the repo-lint tool.
pub open spec fn repo_lint_cap() -> CapView {
    CapView {
        id: "repo-lint"@,
        name: "repo-lint"@,
        description: "Multi-language linting and docstring validation tool"@,
        dependencies: Seq::<Seq<char>>::empty(),
        concurrency_safe: false,
    }
}

/// Installer metadata for repo-lint.
pub struct RepoLintInstaller;

impl RepoLintInstaller {
    /// Unique identifier.
    pub fn id(&self) -> (r: &'static str)
        ensures
            r@ == repo_lint_cap().id,
    {
        "repo-lint"
    }

    /// Human-readable name.
    pub fn name(&self) -> (r: &'static str)
        ensures
            r@ == repo_lint_cap().name,
    {
        "repo-lint"
    }

    /// Description for help text.
    pub fn description(&self) -> (r: &'static str)
        ensures
            r@ == repo_lint_cap().description,
    {
        "Multi-language linting and docstring validation tool"
    }

    /// Dependencies (other installer ids).
    pub fn dependencies(&self) -> (r: Vec<&'static str>)
        ensures
            r.deep_view() == repo_lint_cap().dependencies,
    {
        let v: Vec<&'static str> = Vec::new();
        proof {
            assert(v.deep_view() =~= repo_lint_cap().dependencies);
        }
        v
    }

    /// Whether installation may run concurrently with other tools.
    pub fn concurrency_safe(&self) -> (r: bool)
        ensures
            r == repo_lint_cap().concurrency_safe,
    {
        false
    }

    /// The capability descriptor of this tool.
    pub fn capability(&self) -> (r: Capability)
        ensures
            r@ == repo_lint_cap(),
    {
        let deps: Vec<String> = Vec::new();
        let c = Capability::new("repo-lint", "repo-lint", "Multi-language linting and docstring validation tool", deps, false);
        proof {
            assert(c@.dependencies =~= repo_lint_cap().dependencies);
            assert(c@ =~~= repo_lint_cap());
        }
        c
    }
}

/// The capability descriptor of the ripgrep tool.
pub open spec fn ripgrep_cap() -> CapView {
    CapView {
        id: "ripgrep"@,
        name: "ripgrep"@,
        description: "Fast grep alternative (REQUIRED)"@,
        dependencies: Seq::<Seq<char>>::empty(),
        concurrency_safe: false,
    }
}

/// Installer metadata for ripgrep.
pub struct RipgrepInstaller;

impl RipgrepInstaller {
    /// Unique identifier.
    pub fn id(&self) -> (r: &'static str)
        ensures
            r@ == ripgrep_cap().id,
    {
        "ripgrep"
    }

    /// Human-readable name.
    pub fn name(&self) -> (r: &'static str)
        ensures
            r@ == ripgrep_cap().name,
    {
        "ripgrep"
    }

    /// Description for help text.
    pub fn description(&self) -> (r: &'static str)
        ensures
            r@ == ripgrep_cap().description,
    {
        "Fast grep alternative (REQUIRED)"
    }

    /// Dependencies (other installer ids).
    pub fn dependencies(&self) -> (r: Vec<&'static str>)
        ensures
            r.deep_view() == ripgrep_cap().dependencies,
    {
        let v: Vec<&'static str> = Vec::new();
        proof {
            assert(v.deep_view() =~= ripgrep_cap().dependencies);
        }
        v
    }

    /// Whether installation may run concurrently with other tools.
    pub fn concurrency_safe(&self) -> (r: bool)
        ensures
            r == ripgrep_cap().concurrency_safe,
    {
        false
    }

    /// The capability descriptor of this tool.
    pub fn capability(&self) -> (r: Capability)
        ensures
            r@ == ripgrep_cap(),
    {
        let deps: Vec<String> = Vec::new();
        let c = Capability::new("ripgrep", "ripgrep", "Fast grep alternative (REQUIRED)", deps, false);
        proof {
            assert(c@.dependencies =~= ripgrep_cap().dependencies);
            assert(c@ =~~= ripgrep_cap());
        }
        c
    }
}

/// The capability descriptor of the black tool.
pub open spec fn black_cap() -> CapView {
    CapView {
        id: "python-black"@,
        name: "black"@,
        description: "Python code formatter"@,
        dependencies: Seq::<Seq<char>>::empty(),
        concurrency_safe: false,
    }
}

/// Installer metadata for black.
pub struct BlackInstaller;

impl BlackInstaller {
    /// Unique identifier.
    pub fn id(&self) -> (r: &'static str)
        ensures
            r@ == black_cap().id,
    {
        "python-black"
    }

    /// Human-readable name.
    pub fn name(&self) -> (r: &'static str)
        ensures
            r@ == black_cap().name,
    {
        "black"
    }

    /// Description for help text.
    pub fn description(&self) -> (r: &'static str)
        ensures
            r@ == black_cap().description,
    {
        "Python code formatter"
    }

    /// Dependencies (other installer ids).
    pub fn dependencies(&self) -> (r: Vec<&'static str>)
        ensures
            r.deep_view() == black_cap().dependencies,
    {
        let v: Vec<&'static str> = Vec::new();
        proof {
            assert(v.deep_view() =~= black_cap().dependencies);
        }
        v
    }

    /// Whether installation may run concurrently with other tools.
    pub fn concurrency_safe(&self) -> (r: bool)
        ensures
            r == black_cap().concurrency_safe,
    {
        false
    }

    /// The capability descriptor of this tool.
    pub fn capability(&self) -> (r: Capability)
        ensures
            r@ == black_cap(),
    {
        let deps: Vec<String> = Vec::new();
        let c = Capability::new("python-black", "black", "Python code formatter", deps, false);
        proof {
            assert(c@.dependencies =~= black_cap().dependencies);
            assert(c@ =~~= black_cap());
        }
        c
    }
}

/// The capability descriptor of the ruff tool.
pub open spec fn ruff_cap() -> CapView {
    CapView {
        id: "python-ruff"@,
        name: "ruff"@,
        description: "Fast Python linter"@,
        dependencies: Seq::<Seq<char>>::empty(),
        concurrency_safe: false,
    }
}

/// Installer metadata for ruff.
pub struct RuffInstaller;

impl RuffInstaller {
    /// Unique identifier.
    pub fn id(&self) -> (r: &'static str)
        ensures
            r@ == ruff_cap().id,
    {
        "python-ruff"
    }

    /// Human-readable name.
    pub fn name(&self) -> (r: &'static str)
        ensures
            r@ == ruff_cap().name,
    {
        "ruff"
    }

    /// Description for help text.
    pub fn description(&self) -> (r: &'static str)
        ensures
            r@ == ruff_cap().description,
    {
        "Fast Python linter"
    }

    /// Dependencies (other installer ids).
    pub fn dependencies(&self) -> (r: Vec<&'static str>)
        ensures
            r.deep_view() == ruff_cap().dependencies,
    {
        let v: Vec<&'static str> = Vec::new();
        proof {
            assert(v.deep_view() =~= ruff_cap().dependencies);
        }
        v
    }

    /// Whether installation may run concurrently with other tools.
    pub fn concurrency_safe(&self) -> (r: bool)
        ensures
            r == ruff_cap().concurrency_safe,
    {
        false
    }

    /// The capability descriptor of this tool.
    pub fn capability(&self) -> (r: Capability)
        ensures
            r@ == ruff_cap(),
    {
        let deps: Vec<String> = Vec::new();
        let c = Capability::new("python-ruff", "ruff", "Fast Python linter", deps, false);
        proof {
            assert(c@.dependencies =~= ruff_cap().dependencies);
            assert(c@ =~~= ruff_cap());
        }
        c
    }
}

/// The capability descriptor of the pylint tool.
pub open spec fn pylint_cap() -> CapView {
    CapView {
        id: "python-pylint"@,
        name: "pylint"@,
        description: "Python linter"@,
        dependencies: Seq::<Seq<char>>::empty(),
        concurrency_safe: false,
    }
}

/// Installer metadata for pylint.
pub struct PylintInstaller;

impl PylintInstaller {
    /// Unique identifier.
    pub fn id(&self) -> (r: &'static str)
        ensures
            r@ == pylint_cap().id,
    {
        "python-pylint"
    }

    /// Human-readable name.
    pub fn name(&self) -> (r: &'static str)
        ensures
            r@ == pylint_cap().name,
    {
        "pylint"
    }

    /// Description for help text.
    pub fn description(&self) -> (r: &'static str)
        ensures
            r@ == pylint_cap().description,
    {
        "Python linter"
    }

    /// Dependencies (other installer ids).
    pub fn dependencies(&self) -> (r: Vec<&'static str>)
        ensures
            r.deep_view() == pylint_cap().dependencies,
    {
        let v: Vec<&'static str> = Vec::new();
        proof {
            assert(v.deep_view() =~= pylint_cap().dependencies);
        }
        v
    }

    /// Whether installation may run concurrently with other tools.
    pub fn concurrency_safe(&self) -> (r: bool)
        ensures
            r == pylint_cap().concurrency_safe,
    {
        false
    }

    /// The capability descriptor of this tool.
    pub fn capability(&self) -> (r: Capability)
        ensures
            r@ == pylint_cap(),
    {
        let deps: Vec<String> = Vec::new();
        let c = Capability::new("python-pylint", "pylint", "Python linter", deps, false);
        proof {
            assert(c@.dependencies =~= pylint_cap().dependencies);
            assert(c@ =~~= pylint_cap());
        }
        c
    }
}

/// The capability descriptor of the yamllint tool.
pub open spec fn yamllint_cap() -> CapView {
    CapView {
        id: "yamllint"@,
        name: "yamllint"@,
        description: "YAML linter"@,
        dependencies: Seq::<Seq<char>>::empty(),
        concurrency_safe: false,
    }
}

/// Installer metadata for yamllint.
pub struct YamllintInstaller;

impl YamllintInstaller {
    /// Unique identifier.
    pub fn id(&self) -> (r: &'static str)
        ensures
            r@ == yamllint_cap().id,
    {
        "yamllint"
    }

    /// Human-readable name.
    pub fn name(&self) -> (r: &'static str)
        ensures
            r@ == yamllint_cap().name,
    {
        "yamllint"
    }

    /// Description for help text.
    pub fn description(&self) -> (r: &'static str)
        ensures
            r@ == yamllint_cap().description,
    {
        "YAML linter"
    }

    /// Dependencies (other installer ids).
    pub fn dependencies(&self) -> (r: Vec<&'static str>)
        ensures
            r.deep_view() == yamllint_cap().dependencies,
    {
        let v: Vec<&'static str> = Vec::new();
        proof {
            assert(v.deep_view() =~= yamllint_cap().dependencies);
        }
        v
    }

    /// Whether installation may run concurrently with other tools.
    pub fn concurrency_safe(&self) -> (r: bool)
        ensures
            r == yamllint_cap().concurrency_safe,
    {
        false
    }

    /// The capability descriptor of this tool.
    pub fn capability(&self) -> (r: Capability)
        ensures
            r@ == yamllint_cap(),
    {
        let deps: Vec<String> = Vec::new();
        let c = Capability::new("yamllint", "yamllint", "YAML linter", deps, false);
        proof {
            assert(c@.dependencies =~= yamllint_cap().dependencies);
            assert(c@ =~~= yamllint_cap());
        }
        c
    }
}

/// The capability descriptor of the pytest tool.
pub open spec fn pytest_cap() -> CapView {
    CapView {
        id: "pytest"@,
        name: "pytest"@,
        description: "Python testing framework"@,
        dependencies: Seq::<Seq<char>>::empty(),
        concurrency_safe: false,
    }
}

/// Installer metadata for pytest.
pub struct PytestInstaller;

impl PytestInstaller {
    /// Unique identifier.
    pub fn id(&self) -> (r: &'static str)
        ensures
            r@ == pytest_cap().id,
    {
        "pytest"
    }

    /// Human-readable name.
    pub fn name(&self) -> (r: &'static str)
        ensures
            r@ == pytest_cap().name,
    {
        "pytest"
    }

    /// Description for help text.
    pub fn description(&self) -> (r: &'static str)
        ensures
            r@ == pytest_cap().description,
    {
        "Python testing framework"
    }

    /// Dependencies (other installer ids).
    pub fn dependencies(&self) -> (r: Vec<&'static str>)
        ensures
            r.deep_view() == pytest_cap().dependencies,
    {
        let v: Vec<&'static str> = Vec::new();
        proof {
            assert(v.deep_view() =~= pytest_cap().dependencies);
        }
        v
    }

    /// Whether installation may run concurrently with other tools.
    pub fn concurrency_safe(&self) -> (r: bool)
        ensures
            r == pytest_cap().concurrency_safe,
    {
        false
    }

    /// The capability descriptor of this tool.
    pub fn capability(&self) -> (r: Capability)
        ensures
            r@ == pytest_cap(),
    {
        let deps: Vec<String> = Vec::new();
        let c = Capability::new("pytest", "pytest", "Python testing framework", deps, false);
        proof {
            assert(c@.dependencies =~= pytest_cap().dependencies);
            assert(c@ =~~= pytest_cap());
        }
        c
    }
}

/// The capability descriptor of the actionlint tool.
pub open spec fn actionlint_cap() -> CapView {
    CapView {
        id: "actionlint"@,
        name: "actionlint"@,
        description: "GitHub Actions workflow linter"@,
        dependencies: Seq::<Seq<char>>::empty(),
        concurrency_safe: false,
    }
}

/// Installer metadata for actionlint.
pub struct ActionlintInstaller;

impl ActionlintInstaller {
    /// Unique identifier.
    pub fn id(&self) -> (r: &'static str)
        ensures
            r@ == actionlint_cap().id,
    {
        "actionlint"
    }

    /// Human-readable name.
    pub fn name(&self) -> (r: &'static str)
        ensures
            r@ == actionlint_cap().name,
    {
        "actionlint"
    }

    /// Description for help text.
    pub fn description(&self) -> (r: &'static str)
        ensures
            r@ == actionlint_cap().description,
    {
        "GitHub Actions workflow linter"
    }

    /// Dependencies (other installer ids).
    pub fn dependencies(&self) -> (r: Vec<&'static str>)
        ensures
            r.deep_view() == actionlint_cap().dependencies,
    {
        let v: Vec<&'static str> = Vec::new();
        proof {
            assert(v.deep_view() =~= actionlint_cap().dependencies);
        }
        v
    }

    /// Whether installation may run concurrently with other tools.
    pub fn concurrency_safe(&self) -> (r: bool)
        ensures
            r == actionlint_cap().concurrency_safe,
    {
        false
    }

    /// The capability descriptor of this tool.
    pub fn capability(&self) -> (r: Capability)
        ensures
            r@ == actionlint_cap(),
    {
        let deps: Vec<String> = Vec::new();
        let c = Capability::new("actionlint", "actionlint", "GitHub Actions workflow linter", deps, false);
        proof {
            assert(c@.dependencies =~= actionlint_cap().dependencies);
            assert(c@ =~~= actionlint_cap());
        }
        c
    }
}

/// The capability descriptor of the shellcheck tool.
pub open spec fn shellcheck_cap() -> CapView {
    CapView {
        id: "shellcheck"@,
        name: "shellcheck"@,
        description: "Shell script linter"@,
        dependencies: Seq::<Seq<char>>::empty(),
        concurrency_safe: false,
    }
}

/// Installer metadata for shellcheck.
pub struct ShellcheckInstaller;

impl ShellcheckInstaller {
    /// Unique identifier.
    pub fn id(&self) -> (r: &'static str)
        ensures
            r@ == shellcheck_cap().id,
    {
        "shellcheck"
    }

    /// Human-readable name.
    pub fn name(&self) -> (r: &'static str)
        ensures
            r@ == shellcheck_cap().name,
    {
        "shellcheck"
    }

    /// Description for help text.
    pub fn description(&self) -> (r: &'static str)
        ensures
            r@ == shellcheck_cap().description,
    {
        "Shell script linter"
    }

    /// Dependencies (other installer ids).
    pub fn dependencies(&self) -> (r: Vec<&'static str>)
        ensures
            r.deep_view() == shellcheck_cap().dependencies,
    {
        let v: Vec<&'static str> = Vec::new();
        proof {
            assert(v.deep_view() =~= shellcheck_cap().dependencies);
        }
        v
    }

    /// Whether installation may run concurrently with other tools.
    pub fn concurrency_safe(&self) -> (r: bool)
        ensures
            r == shellcheck_cap().concurrency_safe,
    {
        false
    }

    /// The capability descriptor of this tool.
    pub fn capability(&self) -> (r: Capability)
        ensures
            r@ == shellcheck_cap(),
    {
        let deps: Vec<String> = Vec::new();
        let c = Capability::new("shellcheck", "shellcheck", "Shell script linter", deps, false);
        proof {
            assert(c@.dependencies =~= shellcheck_cap().dependencies);
            assert(c@ =~~= shellcheck_cap());
        }
        c
    }
}

/// The capability descriptor of the shfmt tool.
pub open spec fn shfmt_cap() -> CapView {
    CapView {
        id: "shfmt"@,
        name: "shfmt"@,
        description: "Shell script formatter"@,
        dependencies: Seq::<Seq<char>>::empty(),
        concurrency_safe: false,
    }
}

/// Installer metadata for shfmt.
pub struct ShfmtInstaller;

impl ShfmtInstaller {
    /// Unique identifier.
    pub fn id(&self) -> (r: &'static str)
        ensures
            r@ == shfmt_cap().id,
    {
        "shfmt"
    }

    /// Human-readable name.
    pub fn name(&self) -> (r: &'static str)
        ensures
            r@ == shfmt_cap().name,
    {
        "shfmt"
    }

    /// Description for help text.
    pub fn description(&self) -> (r: &'static str)
        ensures
            r@ == shfmt_cap().description,
    {
        "Shell script formatter"
    }

    /// Dependencies (other installer ids).
    pub fn dependencies(&self) -> (r: Vec<&'static str>)
        ensures
            r.deep_view() == shfmt_cap().dependencies,
    {
        let v: Vec<&'static str> = Vec::new();
        proof {
            assert(v.deep_view() =~= shfmt_cap().dependencies);
        }
        v
    }

    /// Whether installation may run concurrently with other tools.
    pub fn concurrency_safe(&self) -> (r: bool)
        ensures
            r == shfmt_cap().concurrency_safe,
    {
        false
    }

    /// The capability descriptor of this tool.
    pub fn capability(&self) -> (r: Capability)
        ensures
            r@ == shfmt_cap(),
    {
        let deps: Vec<String> = Vec::new();
        let c = Capability::new("shfmt", "shfmt", "Shell script formatter", deps, false);
        proof {
            assert(c@.dependencies =~= shfmt_cap().dependencies);
            assert(c@ =~~= shfmt_cap());
        }
        c
    }
}

/// The capability descriptor of the Perl::Critic tool.
pub open spec fn perl_critic_cap() -> CapView {
    CapView {
        id: "perlcritic"@,
        name: "Perl::Critic"@,
        description: "Perl source code analyzer"@,
        dependencies: Seq::<Seq<char>>::empty(),
        concurrency_safe: false,
    }
}

/// Installer metadata for Perl::Critic.
pub struct PerlCriticInstaller;

impl PerlCriticInstaller {
    /// Unique identifier.
    pub fn id(&self) -> (r: &'static str)
        ensures
            r@ == perl_critic_cap().id,
    {
        "perlcritic"
    }

    /// Human-readable name.
    pub fn name(&self) -> (r: &'static str)
        ensures
            r@ == perl_critic_cap().name,
    {
        "Perl::Critic"
    }

    /// Description for help text.
    pub fn description(&self) -> (r: &'static str)
        ensures
            r@ == perl_critic_cap().description,
    {
        "Perl source code analyzer"
    }

    /// Dependencies (other installer ids).
    pub fn dependencies(&self) -> (r: Vec<&'static str>)
        ensures
            r.deep_view() == perl_critic_cap().dependencies,
    {
        let v: Vec<&'static str> = Vec::new();
        proof {
            assert(v.deep_view() =~= perl_critic_cap().dependencies);
        }
        v
    }

    /// Whether installation may run concurrently with other tools.
    pub fn concurrency_safe(&self) -> (r: bool)
        ensures
            r == perl_critic_cap().concurrency_safe,
    {
        false
    }

    /// The capability descriptor of this tool.
    pub fn capability(&self) -> (r: Capability)
        ensures
            r@ == perl_critic_cap(),
    {
        let deps: Vec<String> = Vec::new();
        let c = Capability::new("perlcritic", "Perl::Critic", "Perl source code analyzer", deps, false);
        proof {
            assert(c@.dependencies =~= perl_critic_cap().dependencies);
            assert(c@ =~~= perl_critic_cap());
        }
        c
    }
}

/// The capability descriptor of the PPI tool.
pub open spec fn ppi_cap() -> CapView {
    CapView {
        id: "ppi"@,
        name: "PPI"@,
        description: "Perl parsing and manipulation library"@,
        dependencies: Seq::<Seq<char>>::empty(),
        concurrency_safe: false,
    }
}

/// Installer metadata for PPI.
pub struct PPIInstaller;

impl PPIInstaller {
    /// Unique identifier.
    pub fn id(&self) -> (r: &'static str)
        ensures
            r@ == ppi_cap().id,
    {
        "ppi"
    }

    /// Human-readable name.
    pub fn name(&self) -> (r: &'static str)
        ensures
            r@ == ppi_cap().name,
    {
        "PPI"
    }

    /// Description for help text.
    pub fn description(&self) -> (r: &'static str)
        ensures
            r@ == ppi_cap().description,
    {
        "Perl parsing and manipulation library"
    }

    /// Dependencies (other installer ids).
    pub fn dependencies(&self) -> (r: Vec<&'static str>)
        ensures
            r.deep_view() == ppi_cap().dependencies,
    {
        let v: Vec<&'static str> = Vec::new();
        proof {
            assert(v.deep_view() =~= ppi_cap().dependencies);
        }
        v
    }

    /// Whether installation may run concurrently with other tools.
    pub fn concurrency_safe(&self) -> (r: bool)
        ensures
            r == ppi_cap().concurrency_safe,
    {
        false
    }

    /// The capability descriptor of this tool.
    pub fn capability(&self) -> (r: Capability)
        ensures
            r@ == ppi_cap(),
    {
        let deps: Vec<String> = Vec::new();
        let c = Capability::new("ppi", "PPI", "Perl parsing and manipulation library", deps, false);
        proof {
            assert(c@.dependencies =~= ppi_cap().dependencies);
            assert(c@ =~~= ppi_cap());
        }
        c
    }
}

/// The capability descriptor of the PowerShell Core tool.
pub open spec fn pwsh_cap() -> CapView {
    CapView {
        id: "pwsh"@,
        name: "PowerShell Core"@,
        description: "PowerShell interpreter (cross-platform)"@,
        dependencies: Seq::<Seq<char>>::empty(),
        concurrency_safe: false,
    }
}

/// Installer metadata for PowerShell Core.
pub struct PwshInstaller;

impl PwshInstaller {
    /// Unique identifier.
    pub fn id(&self) -> (r: &'static str)
        ensures
            r@ == pwsh_cap().id,
    {
        "pwsh"
    }

    /// Human-readable name.
    pub fn name(&self) -> (r: &'static str)
        ensures
            r@ == pwsh_cap().name,
    {
        "PowerShell Core"
    }

    /// Description for help text.
    pub fn description(&self) -> (r: &'static str)
        ensures
            r@ == pwsh_cap().description,
    {
        "PowerShell interpreter (cross-platform)"
    }

    /// Dependencies (other installer ids).
    pub fn dependencies(&self) -> (r: Vec<&'static str>)
        ensures
            r.deep_view() == pwsh_cap().dependencies,
    {
        let v: Vec<&'static str> = Vec::new();
        proof {
            assert(v.deep_view() =~= pwsh_cap().dependencies);
        }
        v
    }

    /// Whether installation may run concurrently with other tools.
    pub fn concurrency_safe(&self) -> (r: bool)
        ensures
            r == pwsh_cap().concurrency_safe,
    {
        false
    }

    /// The capability descriptor of this tool.
    pub fn capability(&self) -> (r: Capability)
        ensures
            r@ == pwsh_cap(),
    {
        let deps: Vec<String> = Vec::new();
        let c = Capability::new("pwsh", "PowerShell Core", "PowerShell interpreter (cross-platform)", deps, false);
        proof {
            assert(c@.dependencies =~= pwsh_cap().dependencies);
            assert(c@ =~~= pwsh_cap());
        }
        c
    }
}

/// The capability descriptor of the PSScriptAnalyzer tool.
pub open spec fn psscriptanalyzer_cap() -> CapView {
    CapView {
        id: "psscriptanalyzer"@,
        name: "PSScriptAnalyzer"@,
        description: "PowerShell script analyzer and linter"@,
        dependencies: seq!["pwsh"@],
        concurrency_safe: false,
    }
}

/// Installer metadata for PSScriptAnalyzer.
pub struct PSScriptAnalyzerInstaller;

impl PSScriptAnalyzerInstaller {
    /// Unique identifier.
    pub fn id(&self) -> (r: &'static str)
        ensures
            r@ == psscriptanalyzer_cap().id,
    {
        "psscriptanalyzer"
    }

    /// Human-readable name.
    pub fn name(&self) -> (r: &'static str)
        ensures
            r@ == psscriptanalyzer_cap().name,
    {
        "PSScriptAnalyzer"
    }

    /// Description for help text.
    pub fn description(&self) -> (r: &'static str)
        ensures
            r@ == psscriptanalyzer_cap().description,
    {
        "PowerShell script analyzer and linter"
    }

    /// Dependencies (other installer ids).
    pub fn dependencies(&self) -> (r: Vec<&'static str>)
        ensures
            r.deep_view() == psscriptanalyzer_cap().dependencies,
    {
        let mut v: Vec<&'static str> = Vec::new();
        v.push("pwsh");
        proof {
            assert(v.deep_view() =~= psscriptanalyzer_cap().dependencies);
        }
        v
    }

    /// Whether installation may run concurrently with other tools.
    pub fn concurrency_safe(&self) -> (r: bool)
        ensures
            r == psscriptanalyzer_cap().concurrency_safe,
    {
        false
    }

    /// The capability descriptor of this tool.
    pub fn capability(&self) -> (r: Capability)
        ensures
            r@ == psscriptanalyzer_cap(),
    {
        let mut deps: Vec<String> = Vec::new();
        deps.push("pwsh".to_owned());
        let c = Capability::new("psscriptanalyzer", "PSScriptAnalyzer", "PowerShell script analyzer and linter", deps, false);
        proof {
            assert(c@.dependencies =~= psscriptanalyzer_cap().dependencies);
            assert(c@ =~~= psscriptanalyzer_cap());
        }
        c
    }
}

impl InstallerRegistry {
    /// Create a new registry holding every built-in installer.
    #[verifier::rlimit(60)]
    pub fn new() -> (r: InstallerRegistry)
        ensures
            r.wf(),
            r@.len() <= 14,
            reg_contains(r@, repo_lint_cap().id) && cap_of(r@, repo_lint_cap().id) == repo_lint_cap(),
            reg_contains(r@, ripgrep_cap().id) && cap_of(r@, ripgrep_cap().id) == ripgrep_cap(),
            reg_contains(r@, black_cap().id) && cap_of(r@, black_cap().id) == black_cap(),
            reg_contains(r@, ruff_cap().id) && cap_of(r@, ruff_cap().id) == ruff_cap(),
            reg_contains(r@, pylint_cap().id) && cap_of(r@, pylint_cap().id) == pylint_cap(),
            reg_contains(r@, yamllint_cap().id) && cap_of(r@, yamllint_cap().id) == yamllint_cap(),
            reg_contains(r@, pytest_cap().id) && cap_of(r@, pytest_cap().id) == pytest_cap(),
            reg_contains(r@, actionlint_cap().id) && cap_of(r@, actionlint_cap().id) == actionlint_cap(),
            reg_contains(r@, shellcheck_cap().id) && cap_of(r@, shellcheck_cap().id) == shellcheck_cap(),
            reg_contains(r@, shfmt_cap().id) && cap_of(r@, shfmt_cap().id) == shfmt_cap(),
            reg_contains(r@, perl_critic_cap().id) && cap_of(r@, perl_critic_cap().id) == perl_critic_cap(),
            reg_contains(r@, ppi_cap().id) && cap_of(r@, ppi_cap().id) == ppi_cap(),
            reg_contains(r@, pwsh_cap().id) && cap_of(r@, pwsh_cap().id) == pwsh_cap(),
            reg_contains(r@, psscriptanalyzer_cap().id) && cap_of(r@, psscriptanalyzer_cap().id) == psscriptanalyzer_cap(),
    {
        proof {
            reveal_strlit("repo-lint");
            reveal_strlit("ripgrep");
            reveal_strlit("python-black");
            reveal_strlit("python-ruff");
            reveal_strlit("python-pylint");
            reveal_strlit("yamllint");
            reveal_strlit("pytest");
            reveal_strlit("actionlint");
            reveal_strlit("shellcheck");
            reveal_strlit("shfmt");
            reveal_strlit("perlcritic");
            reveal_strlit("ppi");
            reveal_strlit("pwsh");
            reveal_strlit("psscriptanalyzer");
            assert("repo-lint"@.len() == 9);
            assert("ripgrep"@.len() == 7);
            assert("python-black"@.len() == 12);
            assert("python-ruff"@.len() == 11);
            assert("python-pylint"@.len() == 13);
            assert("yamllint"@.len() == 8);
            assert("pytest"@.len() == 6);
            assert("actionlint"@.len() == 10);
            assert("shellcheck"@.len() == 10);
            assert("shfmt"@.len() == 5);
            assert("perlcritic"@.len() == 10);
            assert("ppi"@.len() == 3);
            assert("pwsh"@.len() == 4);
            assert("psscriptanalyzer"@.len() == 16);
            assert("repo-lint"@ != "ripgrep"@);
            assert("repo-lint"@ != "python-black"@);
            assert("repo-lint"@ != "python-ruff"@);
            assert("repo-lint"@ != "python-pylint"@);
            assert("repo-lint"@ != "yamllint"@);
            assert("repo-lint"@ != "pytest"@);
            assert("repo-lint"@ != "actionlint"@);
            assert("repo-lint"@ != "shellcheck"@);
            assert("repo-lint"@ != "shfmt"@);
            assert("repo-lint"@ != "perlcritic"@);
            assert("repo-lint"@ != "ppi"@);
            assert("repo-lint"@ != "pwsh"@);
            assert("repo-lint"@ != "psscriptanalyzer"@);
            assert("ripgrep"@ != "python-black"@);
            assert("ripgrep"@ != "python-ruff"@);
            assert("ripgrep"@ != "python-pylint"@);
            assert("ripgrep"@ != "yamllint"@);
            assert("ripgrep"@ != "pytest"@);
            assert("ripgrep"@ != "actionlint"@);
            assert("ripgrep"@ != "shellcheck"@);
            assert("ripgrep"@ != "shfmt"@);
            assert("ripgrep"@ != "perlcritic"@);
            assert("ripgrep"@ != "ppi"@);
            assert("ripgrep"@ != "pwsh"@);
            assert("ripgrep"@ != "psscriptanalyzer"@);
            assert("python-black"@ != "python-ruff"@);
            assert("python-black"@ != "python-pylint"@);
            assert("python-black"@ != "yamllint"@);
            assert("python-black"@ != "pytest"@);
            assert("python-black"@ != "actionlint"@);
            assert("python-black"@ != "shellcheck"@);
            assert("python-black"@ != "shfmt"@);
            assert("python-black"@ != "perlcritic"@);
            assert("python-black"@ != "ppi"@);
            assert("python-black"@ != "pwsh"@);
            assert("python-black"@ != "psscriptanalyzer"@);
            assert("python-ruff"@ != "python-pylint"@);
            assert("python-ruff"@ != "yamllint"@);
            assert("python-ruff"@ != "pytest"@);
            assert("python-ruff"@ != "actionlint"@);
            assert("python-ruff"@ != "shellcheck"@);
            assert("python-ruff"@ != "shfmt"@);
            assert("python-ruff"@ != "perlcritic"@);
            assert("python-ruff"@ != "ppi"@);
            assert("python-ruff"@ != "pwsh"@);
            assert("python-ruff"@ != "psscriptanalyzer"@);
            assert("python-pylint"@ != "yamllint"@);
            assert("python-pylint"@ != "pytest"@);
            assert("python-pylint"@ != "actionlint"@);
            assert("python-pylint"@ != "shellcheck"@);
            assert("python-pylint"@ != "shfmt"@);
            assert("python-pylint"@ != "perlcritic"@);
            assert("python-pylint"@ != "ppi"@);
            assert("python-pylint"@ != "pwsh"@);
            assert("python-pylint"@ != "psscriptanalyzer"@);
            assert("yamllint"@ != "pytest"@);
            assert("yamllint"@ != "actionlint"@);
            assert("yamllint"@ != "shellcheck"@);
            assert("yamllint"@ != "shfmt"@);
            assert("yamllint"@ != "perlcritic"@);
            assert("yamllint"@ != "ppi"@);
            assert("yamllint"@ != "pwsh"@);
            assert("yamllint"@ != "psscriptanalyzer"@);
            assert("pytest"@ != "actionlint"@);
            assert("pytest"@ != "shellcheck"@);
            assert("pytest"@ != "shfmt"@);
            assert("pytest"@ != "perlcritic"@);
            assert("pytest"@ != "ppi"@);
            assert("pytest"@ != "pwsh"@);
            assert("pytest"@ != "psscriptanalyzer"@);
            assert("actionlint"@[0] == 'a' && "shellcheck"@[0] == 's');
            assert("actionlint"@ != "shellcheck"@);
            assert("actionlint"@ != "shfmt"@);
            assert("actionlint"@[0] == 'a' && "perlcritic"@[0] == 'p');
            assert("actionlint"@ != "perlcritic"@);
            assert("actionlint"@ != "ppi"@);
            assert("actionlint"@ != "pwsh"@);
            assert("actionlint"@ != "psscriptanalyzer"@);
            assert("shellcheck"@ != "shfmt"@);
            assert("shellcheck"@[0] == 's' && "perlcritic"@[0] == 'p');
            assert("shellcheck"@ != "perlcritic"@);
            assert("shellcheck"@ != "ppi"@);
            assert("shellcheck"@ != "pwsh"@);
            assert("shellcheck"@ != "psscriptanalyzer"@);
            assert("shfmt"@ != "perlcritic"@);
            assert("shfmt"@ != "ppi"@);
            assert("shfmt"@ != "pwsh"@);
            assert("shfmt"@ != "psscriptanalyzer"@);
            assert("perlcritic"@ != "ppi"@);
            assert("perlcritic"@ != "pwsh"@);
            assert("perlcritic"@ != "psscriptanalyzer"@);
            assert("ppi"@ != "pwsh"@);
            assert("ppi"@ != "psscriptanalyzer"@);
            assert("pwsh"@ != "psscriptanalyzer"@);
        }
        let mut r = InstallerRegistry::empty();
        r.register(RepoLintInstaller.capability());
        proof {
            assert(reg_contains(r@, repo_lint_cap().id) && cap_of(r@, repo_lint_cap().id) == repo_lint_cap());
        }
        r.register(RipgrepInstaller.capability());
        proof {
            assert(reg_contains(r@, repo_lint_cap().id) && cap_of(r@, repo_lint_cap().id) == repo_lint_cap());
            assert(reg_contains(r@, ripgrep_cap().id) && cap_of(r@, ripgrep_cap().id) == ripgrep_cap());
        }
        r.register(BlackInstaller.capability());
        proof {
            assert(reg_contains(r@, repo_lint_cap().id) && cap_of(r@, repo_lint_cap().id) == repo_lint_cap());
            assert(reg_contains(r@, ripgrep_cap().id) && cap_of(r@, ripgrep_cap().id) == ripgrep_cap());
            assert(reg_contains(r@, black_cap().id) && cap_of(r@, black_cap().id) == black_cap());
        }
        r.register(RuffInstaller.capability());
        proof {
            assert(reg_contains(r@, repo_lint_cap().id) && cap_of(r@, repo_lint_cap().id) == repo_lint_cap());
            assert(reg_contains(r@, ripgrep_cap().id) && cap_of(r@, ripgrep_cap().id) == ripgrep_cap());
            assert(reg_contains(r@, black_cap().id) && cap_of(r@, black_cap().id) == black_cap());
            assert(reg_contains(r@, ruff_cap().id) && cap_of(r@, ruff_cap().id) == ruff_cap());
        }
        r.register(PylintInstaller.capability());
        proof {
            assert(reg_contains(r@, repo_lint_cap().id) && cap_of(r@, repo_lint_cap().id) == repo_lint_cap());
            assert(reg_contains(r@, ripgrep_cap().id) && cap_of(r@, ripgrep_cap().id) == ripgrep_cap());
            assert(reg_contains(r@, black_cap().id) && cap_of(r@, black_cap().id) == black_cap());
            assert(reg_contains(r@, ruff_cap().id) && cap_of(r@, ruff_cap().id) == ruff_cap());
            assert(reg_contains(r@, pylint_cap().id) && cap_of(r@, pylint_cap().id) == pylint_cap());
        }
        r.register(YamllintInstaller.capability());
        proof {
            assert(reg_contains(r@, repo_lint_cap().id) && cap_of(r@, repo_lint_cap().id) == repo_lint_cap());
            assert(reg_contains(r@, ripgrep_cap().id) && cap_of(r@, ripgrep_cap().id) == ripgrep_cap());
            assert(reg_contains(r@, black_cap().id) && cap_of(r@, black_cap().id) == black_cap());
            assert(reg_contains(r@, ruff_cap().id) && cap_of(r@, ruff_cap().id) == ruff_cap());
            assert(reg_contains(r@, pylint_cap().id) && cap_of(r@, pylint_cap().id) == pylint_cap());
            assert(reg_contains(r@, yamllint_cap().id) && cap_of(r@, yamllint_cap().id) == yamllint_cap());
        }
        r.register(PytestInstaller.capability());
        proof {
            assert(reg_contains(r@, repo_lint_cap().id) && cap_of(r@, repo_lint_cap().id) == repo_lint_cap());
            assert(reg_contains(r@, ripgrep_cap().id) && cap_of(r@, ripgrep_cap().id) == ripgrep_cap());
            assert(reg_contains(r@, black_cap().id) && cap_of(r@, black_cap().id) == black_cap());
            assert(reg_contains(r@, ruff_cap().id) && cap_of(r@, ruff_cap().id) == ruff_cap());
            assert(reg_contains(r@, pylint_cap().id) && cap_of(r@, pylint_cap().id) == pylint_cap());
            assert(reg_contains(r@, yamllint_cap().id) && cap_of(r@, yamllint_cap().id) == yamllint_cap());
            assert(reg_contains(r@, pytest_cap().id) && cap_of(r@, pytest_cap().id) == pytest_cap());
        }
        r.register(ActionlintInstaller.capability());
        proof {
            assert(reg_contains(r@, repo_lint_cap().id) && cap_of(r@, repo_lint_cap().id) == repo_lint_cap());
            assert(reg_contains(r@, ripgrep_cap().id) && cap_of(r@, ripgrep_cap().id) == ripgrep_cap());
            assert(reg_contains(r@, black_cap().id) && cap_of(r@, black_cap().id) == black_cap());
            assert(reg_contains(r@, ruff_cap().id) && cap_of(r@, ruff_cap().id) == ruff_cap());
            assert(reg_contains(r@, pylint_cap().id) && cap_of(r@, pylint_cap().id) == pylint_cap());
            assert(reg_contains(r@, yamllint_cap().id) && cap_of(r@, yamllint_cap().id) == yamllint_cap());
            assert(reg_contains(r@, pytest_cap().id) && cap_of(r@, pytest_cap().id) == pytest_cap());
            assert(reg_contains(r@, actionlint_cap().id) && cap_of(r@, actionlint_cap().id) == actionlint_cap());
        }
        r.register(ShellcheckInstaller.capability());
        proof {
            assert(reg_contains(r@, repo_lint_cap().id) && cap_of(r@, repo_lint_cap().id) == repo_lint_cap());
            assert(reg_contains(r@, ripgrep_cap().id) && cap_of(r@, ripgrep_cap().id) == ripgrep_cap());
            assert(reg_contains(r@, black_cap().id) && cap_of(r@, black_cap().id) == black_cap());
            assert(reg_contains(r@, ruff_cap().id) && cap_of(r@, ruff_cap().id) == ruff_cap());
            assert(reg_contains(r@, pylint_cap().id) && cap_of(r@, pylint_cap().id) == pylint_cap());
            assert(reg_contains(r@, yamllint_cap().id) && cap_of(r@, yamllint_cap().id) == yamllint_cap());
            assert(reg_contains(r@, pytest_cap().id) && cap_of(r@, pytest_cap().id) == pytest_cap());
            assert(reg_contains(r@, actionlint_cap().id) && cap_of(r@, actionlint_cap().id) == actionlint_cap());
            assert(reg_contains(r@, shellcheck_cap().id) && cap_of(r@, shellcheck_cap().id) == shellcheck_cap());
        }
        r.register(ShfmtInstaller.capability());
        proof {
            assert(reg_contains(r@, repo_lint_cap().id) && cap_of(r@, repo_lint_cap().id) == repo_lint_cap());
            assert(reg_contains(r@, ripgrep_cap().id) && cap_of(r@, ripgrep_cap().id) == ripgrep_cap());
            assert(reg_contains(r@, black_cap().id) && cap_of(r@, black_cap().id) == black_cap());
            assert(reg_contains(r@, ruff_cap().id) && cap_of(r@, ruff_cap().id) == ruff_cap());
            assert(reg_contains(r@, pylint_cap().id) && cap_of(r@, pylint_cap().id) == pylint_cap());
            assert(reg_contains(r@, yamllint_cap().id) && cap_of(r@, yamllint_cap().id) == yamllint_cap());
            assert(reg_contains(r@, pytest_cap().id) && cap_of(r@, pytest_cap().id) == pytest_cap());
            assert(reg_contains(r@, actionlint_cap().id) && cap_of(r@, actionlint_cap().id) == actionlint_cap());
            assert(reg_contains(r@, shellcheck_cap().id) && cap_of(r@, shellcheck_cap().id) == shellcheck_cap());
            assert(reg_contains(r@, shfmt_cap().id) && cap_of(r@, shfmt_cap().id) == shfmt_cap());
        }
        r.register(PerlCriticInstaller.capability());
        proof {
            assert(reg_contains(r@, repo_lint_cap().id) && cap_of(r@, repo_lint_cap().id) == repo_lint_cap());
            assert(reg_contains(r@, ripgrep_cap().id) && cap_of(r@, ripgrep_cap().id) == ripgrep_cap());
            assert(reg_contains(r@, black_cap().id) && cap_of(r@, black_cap().id) == black_cap());
            assert(reg_contains(r@, ruff_cap().id) && cap_of(r@, ruff_cap().id) == ruff_cap());
            assert(reg_contains(r@, pylint_cap().id) && cap_of(r@, pylint_cap().id) == pylint_cap());
            assert(reg_contains(r@, yamllint_cap().id) && cap_of(r@, yamllint_cap().id) == yamllint_cap());
            assert(reg_contains(r@, pytest_cap().id) && cap_of(r@, pytest_cap().id) == pytest_cap());
            assert(reg_contains(r@, actionlint_cap().id) && cap_of(r@, actionlint_cap().id) == actionlint_cap());
            assert(reg_contains(r@, shellcheck_cap().id) && cap_of(r@, shellcheck_cap().id) == shellcheck_cap());
            assert(reg_contains(r@, shfmt_cap().id) && cap_of(r@, shfmt_cap().id) == shfmt_cap());
            assert(reg_contains(r@, perl_critic_cap().id) && cap_of(r@, perl_critic_cap().id) == perl_critic_cap());
        }
        r.register(PPIInstaller.capability());
        proof {
            assert(reg_contains(r@, repo_lint_cap().id) && cap_of(r@, repo_lint_cap().id) == repo_lint_cap());
            assert(reg_contains(r@, ripgrep_cap().id) && cap_of(r@, ripgrep_cap().id) == ripgrep_cap());
            assert(reg_contains(r@, black_cap().id) && cap_of(r@, black_cap().id) == black_cap());
            assert(reg_contains(r@, ruff_cap().id) && cap_of(r@, ruff_cap().id) == ruff_cap());
            assert(reg_contains(r@, pylint_cap().id) && cap_of(r@, pylint_cap().id) == pylint_cap());
            assert(reg_contains(r@, yamllint_cap().id) && cap_of(r@, yamllint_cap().id) == yamllint_cap());
            assert(reg_contains(r@, pytest_cap().id) && cap_of(r@, pytest_cap().id) == pytest_cap());
            assert(reg_contains(r@, actionlint_cap().id) && cap_of(r@, actionlint_cap().id) == actionlint_cap());
            assert(reg_contains(r@, shellcheck_cap().id) && cap_of(r@, shellcheck_cap().id) == shellcheck_cap());
            assert(reg_contains(r@, shfmt_cap().id) && cap_of(r@, shfmt_cap().id) == shfmt_cap());
            assert(reg_contains(r@, perl_critic_cap().id) && cap_of(r@, perl_critic_cap().id) == perl_critic_cap());
            assert(reg_contains(r@, ppi_cap().id) && cap_of(r@, ppi_cap().id) == ppi_cap());
        }
        r.register(PwshInstaller.capability());
        proof {
            assert(reg_contains(r@, repo_lint_cap().id) && cap_of(r@, repo_lint_cap().id) == repo_lint_cap());
            assert(reg_contains(r@, ripgrep_cap().id) && cap_of(r@, ripgrep_cap().id) == ripgrep_cap());
            assert(reg_contains(r@, black_cap().id) && cap_of(r@, black_cap().id) == black_cap());
            assert(reg_contains(r@, ruff_cap().id) && cap_of(r@, ruff_cap().id) == ruff_cap());
            assert(reg_contains(r@, pylint_cap().id) && cap_of(r@, pylint_cap().id) == pylint_cap());
            assert(reg_contains(r@, yamllint_cap().id) && cap_of(r@, yamllint_cap().id) == yamllint_cap());
            assert(reg_contains(r@, pytest_cap().id) && cap_of(r@, pytest_cap().id) == pytest_cap());
            assert(reg_contains(r@, actionlint_cap().id) && cap_of(r@, actionlint_cap().id) == actionlint_cap());
            assert(reg_contains(r@, shellcheck_cap().id) && cap_of(r@, shellcheck_cap().id) == shellcheck_cap());
            assert(reg_contains(r@, shfmt_cap().id) && cap_of(r@, shfmt_cap().id) == shfmt_cap());
            assert(reg_contains(r@, perl_critic_cap().id) && cap_of(r@, perl_critic_cap().id) == perl_critic_cap());
            assert(reg_contains(r@, ppi_cap().id) && cap_of(r@, ppi_cap().id) == ppi_cap());
            assert(reg_contains(r@, pwsh_cap().id) && cap_of(r@, pwsh_cap().id) == pwsh_cap());
        }
        r.register(PSScriptAnalyzerInstaller.capability());
        proof {
            assert(reg_contains(r@, repo_lint_cap().id) && cap_of(r@, repo_lint_cap().id) == repo_lint_cap());
            assert(reg_contains(r@, ripgrep_cap().id) && cap_of(r@, ripgrep_cap().id) == ripgrep_cap());
            assert(reg_contains(r@, black_cap().id) && cap_of(r@, black_cap().id) == black_cap());
            assert(reg_contains(r@, ruff_cap().id) && cap_of(r@, ruff_cap().id) == ruff_cap());
            assert(reg_contains(r@, pylint_cap().id) && cap_of(r@, pylint_cap().id) == pylint_cap());
            assert(reg_contains(r@, yamllint_cap().id) && cap_of(r@, yamllint_cap().id) == yamllint_cap());
            assert(reg_contains(r@, pytest_cap().id) && cap_of(r@, pytest_cap().id) == pytest_cap());
            assert(reg_contains(r@, actionlint_cap().id) && cap_of(r@, actionlint_cap().id) == actionlint_cap());
            assert(reg_contains(r@, shellcheck_cap().id) && cap_of(r@, shellcheck_cap().id) == shellcheck_cap());
            assert(reg_contains(r@, shfmt_cap().id) && cap_of(r@, shfmt_cap().id) == shfmt_cap());
            assert(reg_contains(r@, perl_critic_cap().id) && cap_of(r@, perl_critic_cap().id) == perl_critic_cap());
            assert(reg_contains(r@, ppi_cap().id) && cap_of(r@, ppi_cap().id) == ppi_cap());
            assert(reg_contains(r@, pwsh_cap().id) && cap_of(r@, pwsh_cap().id) == pwsh_cap());
            assert(reg_contains(r@, psscriptanalyzer_cap().id) && cap_of(r@, psscriptanalyzer_cap().id) == psscriptanalyzer_cap());
        }
        r
    }
}

} // verus!
