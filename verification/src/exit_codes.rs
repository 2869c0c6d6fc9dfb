//! Process exit codes of the bootstrap tool.
//!
//! These codes are a stable contract with the surrounding scripts: 0 is
//! success, 1 a usage error, and 10 through 21 name specific failure modes.

use vstd::prelude::*;

verus! {

/// Bootstrap exit codes; the numeric values are a stable external contract.
#[derive(Debug, Clone, Copy, PartialEq, Eq, Structural)]
pub enum ExitCode {
    /// Success (0)
    Success,
    /// Usage error - invalid arguments (1)
    UsageError,
    /// Not in a git repository (10)
    NotInRepo,
    /// Virtual environment activation failed (11)
    VenvActivationFailed,
    /// No install target found (12)
    NoInstallTarget,
    /// repo-lint upgrade failed (13)
    RepoLintUpgradeFailed,
    /// repo-lint install failed (14)
    RepoLintInstallFailed,
    /// Python tools failed (15)
    PythonToolsFailed,
    /// Shell toolchain failed (16)
    ShellToolchainFailed,
    /// PowerShell toolchain failed (17)
    PowerShellToolchainFailed,
    /// Perl toolchain failed (18)
    PerlToolchainFailed,
    /// Verification failed (19)
    VerificationFailed,
    /// actionlint installation failed (20)
    ActionlintFailed,
    /// ripgrep installation failed (21); ripgrep is mandatory
    RipgrepFailed,
}

/// The numeric value of each exit code.
pub open spec fn exit_code_value(c: ExitCode) -> u8 {
    match c {
        ExitCode::Success => 0,
        ExitCode::UsageError => 1,
        ExitCode::NotInRepo => 10,
        ExitCode::VenvActivationFailed => 11,
        ExitCode::NoInstallTarget => 12,
        ExitCode::RepoLintUpgradeFailed => 13,
        ExitCode::RepoLintInstallFailed => 14,
        ExitCode::PythonToolsFailed => 15,
        ExitCode::ShellToolchainFailed => 16,
        ExitCode::PowerShellToolchainFailed => 17,
        ExitCode::PerlToolchainFailed => 18,
        ExitCode::VerificationFailed => 19,
        ExitCode::ActionlintFailed => 20,
        ExitCode::RipgrepFailed => 21,
    }
}

impl ExitCode {
    /// Convert to u8 for the process exit status.
    pub fn as_u8(self) -> (r: u8)
        ensures
            r == exit_code_value(self),
    {
        match self {
            ExitCode::Success => 0,
            ExitCode::UsageError => 1,
            ExitCode::NotInRepo => 10,
            ExitCode::VenvActivationFailed => 11,
            ExitCode::NoInstallTarget => 12,
            ExitCode::RepoLintUpgradeFailed => 13,
            ExitCode::RepoLintInstallFailed => 14,
            ExitCode::PythonToolsFailed => 15,
            ExitCode::ShellToolchainFailed => 16,
            ExitCode::PowerShellToolchainFailed => 17,
            ExitCode::PerlToolchainFailed => 18,
            ExitCode::VerificationFailed => 19,
            ExitCode::ActionlintFailed => 20,
            ExitCode::RipgrepFailed => 21,
        }
    }

    /// Convert to i32 for compatibility with process status handling.
    pub fn as_i32(self) -> (r: i32)
        ensures
            r == exit_code_value(self) as i32,
    {
        self.as_u8() as i32
    }

    /// Get a human-readable description of the exit code.
    pub fn description(self) -> (r: &'static str)
        ensures
            self is Success ==> r@ == "Success"@,
            self is RipgrepFailed ==> r@ == "ripgrep installation failed (REQUIRED)"@,
    {
        match self {
            ExitCode::Success => "Success",
            ExitCode::UsageError => "Usage error",
            ExitCode::NotInRepo => "Not in git repository",
            ExitCode::VenvActivationFailed => "Virtual environment activation failed",
            ExitCode::NoInstallTarget => "No install target found",
            ExitCode::RepoLintUpgradeFailed => "repo-lint upgrade failed",
            ExitCode::RepoLintInstallFailed => "repo-lint install failed",
            ExitCode::PythonToolsFailed => "Python tools installation failed",
            ExitCode::ShellToolchainFailed => "Shell toolchain installation failed",
            ExitCode::PowerShellToolchainFailed => "PowerShell toolchain installation failed",
            ExitCode::PerlToolchainFailed => "Perl toolchain installation failed",
            ExitCode::VerificationFailed => "Verification failed",
            ExitCode::ActionlintFailed => "actionlint installation failed",
            ExitCode::RipgrepFailed => "ripgrep installation failed (REQUIRED)",
        }
    }
}

} // verus!
