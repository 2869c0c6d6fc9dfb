//! Diagnostic checks: system prerequisites assembled into a report.
//!
//! Probing the system (running commands, touching the filesystem) is the
//! driving binary's work; what each observation means, and how the report
//! maps to an exit code, is decided here. In strict mode a warning counts as
//! a failure.

use vstd::prelude::*;
use vstd::string::StringExecFns;

use crate::context::PackageManager;
use crate::exit_codes::ExitCode;

verus! {

/// Check status.
#[derive(Debug, Clone, Copy, PartialEq, Eq, Structural)]
pub enum CheckStatus {
    /// Check passed
    Pass,
    /// Issue detected, but not critical
    Warn,
    /// Critical issue
    Fail,
}

/// One diagnostic check's result.
pub struct DiagnosticCheck {
    /// Check name
    pub name: String,
    /// Status
    pub status: CheckStatus,
    /// Message describing the result
    pub message: String,
    /// Optional remediation suggestion
    pub remediation: Option<String>,
}

impl DiagnosticCheck {
    /// Create a passing check.
    pub fn pass(name: &str, message: &str) -> (r: DiagnosticCheck)
        ensures
            r.name@ == name@,
            r.status == CheckStatus::Pass,
            r.message@ == message@,
            r.remediation is None,
    {
        DiagnosticCheck {
            name: name.to_owned(),
            status: CheckStatus::Pass,
            message: message.to_owned(),
            remediation: None,
        }
    }

    /// Create a warning check.
    pub fn warn(name: &str, message: &str, remediation: Option<String>) -> (r: DiagnosticCheck)
        ensures
            r.name@ == name@,
            r.status == CheckStatus::Warn,
            r.message@ == message@,
            r.remediation == remediation,
    {
        DiagnosticCheck {
            name: name.to_owned(),
            status: CheckStatus::Warn,
            message: message.to_owned(),
            remediation,
        }
    }

    /// Create a failing check.
    pub fn fail(name: &str, message: &str, remediation: Option<String>) -> (r: DiagnosticCheck)
        ensures
            r.name@ == name@,
            r.status == CheckStatus::Fail,
            r.message@ == message@,
            r.remediation == remediation,
    {
        DiagnosticCheck {
            name: name.to_owned(),
            status: CheckStatus::Fail,
            message: message.to_owned(),
            remediation,
        }
    }
}

/// Whether any check in the sequence has the given status.
pub open spec fn has_status(checks: Seq<DiagnosticCheck>, st: CheckStatus) -> bool {
    exists|k: int| 0 <= k < checks.len() && checks[k].status == st
}

/// A diagnostic report: the checks performed, in order.
pub struct DiagnosticReport {
    /// All checks performed
    pub checks: Vec<DiagnosticCheck>,
}

impl DiagnosticReport {
    /// Create a new, empty report.
    pub fn new() -> (r: DiagnosticReport)
        ensures
            r.checks@.len() == 0,
    {
        DiagnosticReport { checks: Vec::new() }
    }

    /// Add a check to the report.
    pub fn add_check(&mut self, check: DiagnosticCheck)
        ensures
            final(self).checks@ == old(self).checks@.push(check),
    {
        self.checks.push(check);
    }

    /// The report's exit code: failure when any check failed, or — in strict
    /// mode — when any check warned; success otherwise.
    #[verifier::loop_isolation(false)]
    pub fn exit_code(&self, strict: bool) -> (r: ExitCode)
        ensures
            r == (if has_status(self.checks@, CheckStatus::Fail) || (strict && has_status(
                self.checks@,
                CheckStatus::Warn,
            )) {
                ExitCode::VerificationFailed
            } else {
                ExitCode::Success
            }),
    {
        let n = self.checks.len();
        let mut has_fail: bool = false;
        let mut has_warn: bool = false;
        let mut k: usize = 0;
        while k < n
            invariant
                k <= n == self.checks@.len(),
                has_fail == exists|t: int|
                    0 <= t < k && #[trigger] self.checks@[t].status == CheckStatus::Fail,
                has_warn == exists|t: int|
                    0 <= t < k && #[trigger] self.checks@[t].status == CheckStatus::Warn,
            decreases n - k,
        {
            match self.checks[k].status {
                CheckStatus::Fail => {
                    has_fail = true;
                },
                CheckStatus::Warn => {
                    has_warn = true;
                },
                CheckStatus::Pass => {},
            }
            k = k + 1;
        }
        if has_fail || (strict && has_warn) {
            ExitCode::VerificationFailed
        } else {
            ExitCode::Success
        }
    }
}

/// What the working-tree check reports: a pass when a git directory exists,
/// else a failure with a remediation hint.
pub fn check_repo(git_dir_exists: bool) -> (r: DiagnosticCheck)
    ensures
        git_dir_exists ==> r.status == CheckStatus::Pass,
        !git_dir_exists ==> r.status == CheckStatus::Fail,
        r.name@ == "Repository"@,
{
    if git_dir_exists {
        DiagnosticCheck::pass("Repository", "Git repository detected")
    } else {
        DiagnosticCheck::fail(
            "Repository",
            "Not in a git repository",
            Some("Run this tool from within a git repository".to_owned()),
        )
    }
}

/// What the package-manager check reports: a pass for any detected manager,
/// a warning when none is available.
pub fn check_package_manager(pm: PackageManager) -> (r: DiagnosticCheck)
    ensures
        pm != PackageManager::Unavailable ==> r.status == CheckStatus::Pass,
        pm == PackageManager::Unavailable ==> r.status == CheckStatus::Warn,
        r.name@ == "Package Manager"@,
{
    match pm {
        PackageManager::Homebrew => DiagnosticCheck::pass("Package Manager", "Homebrew is available"),
        PackageManager::Apt => DiagnosticCheck::pass("Package Manager", "apt-get is available"),
        PackageManager::Snap => DiagnosticCheck::pass("Package Manager", "snap is available"),
        PackageManager::Unavailable => DiagnosticCheck::warn(
            "Package Manager",
            "No package manager detected",
            Some(
                "Install Homebrew (macOS/Linux) or use a Linux distribution with apt-get".to_owned(),
            ),
        ),
    }
}

/// What the Python check reports, given the interpreter's version banner if
/// one was obtained.
pub fn check_python(version_banner: Option<&str>) -> (r: DiagnosticCheck)
    ensures
        version_banner is Some ==> r.status == CheckStatus::Pass,
        version_banner is None ==> r.status == CheckStatus::Fail,
        r.name@ == "Python"@,
{
    match version_banner {
        Some(banner) => {
            let msg = "Python 3 is available: ".to_owned().concat(banner);
            DiagnosticCheck {
                name: "Python".to_owned(),
                status: CheckStatus::Pass,
                message: msg,
                remediation: None,
            }
        },
        None => DiagnosticCheck::fail(
            "Python",
            "Python 3 not found",
            Some("Install Python 3.8 or later".to_owned()),
        ),
    }
}

/// What the permissions check reports, given whether a test write succeeded.
pub fn check_permissions(write_ok: bool) -> (r: DiagnosticCheck)
    ensures
        write_ok ==> r.status == CheckStatus::Pass,
        !write_ok ==> r.status == CheckStatus::Fail,
        r.name@ == "Permissions"@,
{
    if write_ok {
        DiagnosticCheck::pass("Permissions", "Write permissions OK")
    } else {
        DiagnosticCheck::fail(
            "Permissions",
            "Cannot write to repository",
            Some("Check file permissions in the repository directory".to_owned()),
        )
    }
}

} // verus!
