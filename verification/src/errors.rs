//! Error taxonomy of the bootstrap orchestrator.
//!
//! Every failure is one variant of [`BootstrapError`]; each variant renders a
//! stable message and maps to a stable process exit code.

use vstd::prelude::*;
use vstd::string::StringExecFns;
use vstd::utf8::encode_utf8;

use crate::exit_codes::ExitCode;
use crate::strutil::{is_prefix_of, str_eq, str_starts_with};

verus! {

/// Main error type for bootstrap operations.
#[derive(Debug)]
pub enum BootstrapError {
    /// Not in a git repository
    NotInRepo,
    /// Virtual environment activation failed
    VenvActivation(String),
    /// Installation failed for a specific tool
    InstallFailed { tool: String, exit_code: i32, stderr: String },
    /// No install target found (no packaging metadata)
    NoInstallTarget,
    /// repo-lint upgrade failed
    RepoLintUpgradeFailed(String),
    /// repo-lint install failed
    RepoLintInstallFailed(String),
    /// Python tools failed
    PythonToolsFailed(String),
    /// Verification failed
    VerificationFailed(String),
    /// Configuration error
    ConfigError(String),
    /// IO error
    IoError(String),
    /// Command execution failed
    CommandFailed { command: String, exit_code: Option<i32>, stderr: String },
    /// Tool not found
    ToolNotFound(String),
    /// Detection failed
    DetectionFailed(String),
    /// No package manager available
    NoPackageManager(String),
    /// Dependency resolution failed
    DependencyResolution(String),
    /// Cyclic dependency detected
    CyclicDependency,
    /// HTTP request failed
    HttpError(String),
    /// Checksum verification failed
    ChecksumMismatch { artifact: String, expected: String, actual: String },
    /// Generic error with context
    Other(String),
}

/// The exit code each error maps to, with tool-specific codes for install
/// failures chosen by the tool name's prefix.
pub open spec fn error_exit_code(e: BootstrapError) -> ExitCode {
    match e {
        BootstrapError::NotInRepo => ExitCode::NotInRepo,
        BootstrapError::VenvActivation(_) => ExitCode::VenvActivationFailed,
        BootstrapError::NoInstallTarget => ExitCode::NoInstallTarget,
        BootstrapError::RepoLintUpgradeFailed(_) => ExitCode::RepoLintUpgradeFailed,
        BootstrapError::RepoLintInstallFailed(_) => ExitCode::RepoLintInstallFailed,
        BootstrapError::PythonToolsFailed(_) => ExitCode::PythonToolsFailed,
        BootstrapError::VerificationFailed(_) => ExitCode::VerificationFailed,
        BootstrapError::InstallFailed { tool, .. } => install_failed_exit_code(tool@),
        BootstrapError::ConfigError(_) => ExitCode::UsageError,
        BootstrapError::CommandFailed { .. } => ExitCode::VerificationFailed,
        BootstrapError::ToolNotFound(_) => ExitCode::VerificationFailed,
        BootstrapError::DetectionFailed(_) => ExitCode::VerificationFailed,
        BootstrapError::NoPackageManager(_) => ExitCode::UsageError,
        BootstrapError::DependencyResolution(_) => ExitCode::UsageError,
        BootstrapError::CyclicDependency => ExitCode::UsageError,
        BootstrapError::HttpError(_) => ExitCode::VerificationFailed,
        BootstrapError::ChecksumMismatch { .. } => ExitCode::VerificationFailed,
        BootstrapError::IoError(_) => ExitCode::VerificationFailed,
        BootstrapError::Other(_) => ExitCode::VerificationFailed,
    }
}

/// The tool-specific exit code of an install failure, by tool name.
pub open spec fn install_failed_exit_code(tool: Seq<char>) -> ExitCode {
    if tool == "actionlint"@ {
        ExitCode::ActionlintFailed
    } else if tool == "ripgrep"@ || tool == "rg"@ {
        ExitCode::RipgrepFailed
    } else if is_prefix_of(encode_utf8("python"@), encode_utf8(tool)) || is_prefix_of(
        encode_utf8("black"@),
        encode_utf8(tool),
    ) || is_prefix_of(encode_utf8("ruff"@), encode_utf8(tool)) || is_prefix_of(
        encode_utf8("pylint"@),
        encode_utf8(tool),
    ) {
        ExitCode::PythonToolsFailed
    } else if is_prefix_of(encode_utf8("shell"@), encode_utf8(tool)) || tool == "shfmt"@ {
        ExitCode::ShellToolchainFailed
    } else if is_prefix_of(encode_utf8("pwsh"@), encode_utf8(tool)) || is_prefix_of(
        encode_utf8("PowerShell"@),
        encode_utf8(tool),
    ) {
        ExitCode::PowerShellToolchainFailed
    } else if is_prefix_of(encode_utf8("perl"@), encode_utf8(tool)) || tool == "perlcritic"@ {
        ExitCode::PerlToolchainFailed
    } else {
        ExitCode::VerificationFailed
    }
}

impl BootstrapError {
    /// Map the error to its process exit code.
    pub fn exit_code(&self) -> (r: ExitCode)
        ensures
            r == error_exit_code(*self),
    {
        match self {
            Self::NotInRepo => ExitCode::NotInRepo,
            Self::VenvActivation(_) => ExitCode::VenvActivationFailed,
            Self::NoInstallTarget => ExitCode::NoInstallTarget,
            Self::RepoLintUpgradeFailed(_) => ExitCode::RepoLintUpgradeFailed,
            Self::RepoLintInstallFailed(_) => ExitCode::RepoLintInstallFailed,
            Self::PythonToolsFailed(_) => ExitCode::PythonToolsFailed,
            Self::VerificationFailed(_) => ExitCode::VerificationFailed,
            Self::InstallFailed { tool, .. } => {
                let t = tool.as_str();
                if str_eq(t, "actionlint") {
                    ExitCode::ActionlintFailed
                } else if str_eq(t, "ripgrep") || str_eq(t, "rg") {
                    ExitCode::RipgrepFailed
                } else if str_starts_with(t, "python") || str_starts_with(t, "black")
                    || str_starts_with(t, "ruff") || str_starts_with(t, "pylint") {
                    ExitCode::PythonToolsFailed
                } else if str_starts_with(t, "shell") || str_eq(t, "shfmt") {
                    ExitCode::ShellToolchainFailed
                } else if str_starts_with(t, "pwsh") || str_starts_with(t, "PowerShell") {
                    ExitCode::PowerShellToolchainFailed
                } else if str_starts_with(t, "perl") || str_eq(t, "perlcritic") {
                    ExitCode::PerlToolchainFailed
                } else {
                    ExitCode::VerificationFailed
                }
            },
            Self::ConfigError(_) => ExitCode::UsageError,
            Self::CommandFailed { .. } => ExitCode::VerificationFailed,
            Self::ToolNotFound(_) => ExitCode::VerificationFailed,
            Self::DetectionFailed(_) => ExitCode::VerificationFailed,
            Self::NoPackageManager(_) => ExitCode::UsageError,
            Self::DependencyResolution(_) => ExitCode::UsageError,
            Self::CyclicDependency => ExitCode::UsageError,
            Self::HttpError(_) => ExitCode::VerificationFailed,
            Self::ChecksumMismatch { .. } => ExitCode::VerificationFailed,
            Self::IoError(_) => ExitCode::VerificationFailed,
            Self::Other(_) => ExitCode::VerificationFailed,
        }
    }

    /// The characters of the message each error renders.
    pub open spec fn message_view(&self) -> Seq<char> {
        match self {
            Self::NotInRepo => "Not in git repository"@,
            Self::VenvActivation(s) => "Virtual environment activation failed: "@ + s@,
            Self::InstallFailed { tool, .. } => "Installation failed: "@ + tool@,
            Self::NoInstallTarget =>
                "Could not determine where to install repo-lint (no packaging metadata found)"@,
            Self::RepoLintUpgradeFailed(s) => "Failed to upgrade repo-lint: "@ + s@,
            Self::RepoLintInstallFailed(s) => "Failed to install repo-lint: "@ + s@,
            Self::PythonToolsFailed(s) => "Python tools failed: "@ + s@,
            Self::VerificationFailed(s) => "Verification failed: "@ + s@,
            Self::ConfigError(s) => "Configuration error: "@ + s@,
            Self::IoError(s) => "IO error: "@ + s@,
            Self::CommandFailed { command, .. } => "Command failed: "@ + command@,
            Self::ToolNotFound(s) => "Tool not found: "@ + s@,
            Self::DetectionFailed(s) => "Detection failed: "@ + s@,
            Self::NoPackageManager(s) => "No package manager available: "@ + s@,
            Self::DependencyResolution(s) => "Dependency resolution failed: "@ + s@,
            Self::CyclicDependency => "Cyclic dependency detected in installer graph"@,
            Self::HttpError(s) => "HTTP request failed: "@ + s@,
            Self::ChecksumMismatch { artifact, expected, actual } =>
                "Checksum verification failed for "@ + artifact@ + ": expected "@ + expected@
                    + ", got "@ + actual@,
            Self::Other(s) => s@,
        }
    }

    /// Render the error as a message string.
    pub fn message(&self) -> (r: String)
        ensures
            r@ == self.message_view(),
    {
        match self {
            Self::NotInRepo => "Not in git repository".to_owned(),
            Self::VenvActivation(s) => concat_msg("Virtual environment activation failed: ", s),
            Self::InstallFailed { tool, .. } => concat_msg("Installation failed: ", tool),
            Self::NoInstallTarget =>
                "Could not determine where to install repo-lint (no packaging metadata found)".to_owned(),
            Self::RepoLintUpgradeFailed(s) => concat_msg("Failed to upgrade repo-lint: ", s),
            Self::RepoLintInstallFailed(s) => concat_msg("Failed to install repo-lint: ", s),
            Self::PythonToolsFailed(s) => concat_msg("Python tools failed: ", s),
            Self::VerificationFailed(s) => concat_msg("Verification failed: ", s),
            Self::ConfigError(s) => concat_msg("Configuration error: ", s),
            Self::IoError(s) => concat_msg("IO error: ", s),
            Self::CommandFailed { command, .. } => concat_msg("Command failed: ", command),
            Self::ToolNotFound(s) => concat_msg("Tool not found: ", s),
            Self::DetectionFailed(s) => concat_msg("Detection failed: ", s),
            Self::NoPackageManager(s) => concat_msg("No package manager available: ", s),
            Self::DependencyResolution(s) => concat_msg("Dependency resolution failed: ", s),
            Self::CyclicDependency => "Cyclic dependency detected in installer graph".to_owned(),
            Self::HttpError(s) => concat_msg("HTTP request failed: ", s),
            Self::ChecksumMismatch { artifact, expected, actual } => {
                let head = concat_msg("Checksum verification failed for ", artifact);
                let head = head.concat(": expected ");
                let head = head.concat(expected.as_str());
                let head = head.concat(", got ");
                head.concat(actual.as_str())
            },
            Self::Other(s) => s.clone(),
        }
    }
}

/// Concatenate a fixed message prefix and a detail string.
fn concat_msg(prefix: &str, detail: &String) -> (r: String)
    ensures
        r@ == prefix@ + detail@,
{
    let s = prefix.to_owned();
    s.concat(detail.as_str())
}

/// Result type alias for bootstrap operations.
pub type BootstrapResult<T> = Result<T, BootstrapError>;

} // verus!
