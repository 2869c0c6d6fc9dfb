//! Execution context: the read-only bag of settings threaded to every
//! capability operation.
//!
//! Detection of the running system (operating system name, which package
//! manager commands exist) happens in the driving binary; the decisions on
//! what those observations mean live here.

use vstd::prelude::*;
use vstd::string::StringExecFns;

use crate::config::Config;
use crate::errors::{BootstrapError, BootstrapResult};
use crate::strutil::str_eq;

verus! {

/// Operating system type.
#[derive(Debug, Clone, Copy, PartialEq, Eq, Structural)]
pub enum OsType {
    /// macOS (Darwin)
    MacOS,
    /// Linux (any distribution)
    Linux,
    /// Windows
    Windows,
}

impl OsType {
    /// Classify the running operating system from its name (as the standard
    /// library reports it); any name that is not macOS or Windows is taken
    /// as a Linux-like system.
    pub fn detect(os_name: &str) -> (r: OsType)
        ensures
            os_name@ == "macos"@ ==> r == OsType::MacOS,
            os_name@ == "windows"@ ==> r == OsType::Windows,
            os_name@ != "macos"@ && os_name@ != "windows"@ ==> r == OsType::Linux,
    {
        proof {
            reveal_strlit("macos");
            reveal_strlit("windows");
            assert("macos"@.len() == 5);
            assert("windows"@.len() == 7);
        }
        if str_eq(os_name, "macos") {
            OsType::MacOS
        } else if str_eq(os_name, "windows") {
            OsType::Windows
        } else {
            OsType::Linux
        }
    }
}

/// Package manager type.
#[derive(Debug, Clone, Copy, PartialEq, Eq, Structural)]
pub enum PackageManager {
    /// Homebrew (macOS, Linux)
    Homebrew,
    /// apt-get (Debian, Ubuntu)
    Apt,
    /// snap (Ubuntu, others)
    Snap,
    /// No package manager available
    Unavailable,
}

impl PackageManager {
    /// Pick the package manager from the operating system and which manager
    /// commands exist: macOS takes Homebrew or nothing; Linux prefers
    /// apt-get, then snap, then Homebrew; Windows has none.
    pub fn detect(os: OsType, has_brew: bool, has_apt: bool, has_snap: bool) -> (r:
        PackageManager)
        ensures
            r == detect_package_manager(os, has_brew, has_apt, has_snap),
    {
        match os {
            OsType::MacOS => {
                if has_brew {
                    PackageManager::Homebrew
                } else {
                    PackageManager::Unavailable
                }
            },
            OsType::Linux => {
                if has_apt {
                    PackageManager::Apt
                } else if has_snap {
                    PackageManager::Snap
                } else if has_brew {
                    PackageManager::Homebrew
                } else {
                    PackageManager::Unavailable
                }
            },
            OsType::Windows => PackageManager::Unavailable,
        }
    }
}

/// The package manager each system and command set resolves to.
pub open spec fn detect_package_manager(
    os: OsType,
    has_brew: bool,
    has_apt: bool,
    has_snap: bool,
) -> PackageManager {
    match os {
        OsType::MacOS => if has_brew {
            PackageManager::Homebrew
        } else {
            PackageManager::Unavailable
        },
        OsType::Linux => if has_apt {
            PackageManager::Apt
        } else if has_snap {
            PackageManager::Snap
        } else if has_brew {
            PackageManager::Homebrew
        } else {
            PackageManager::Unavailable
        },
        OsType::Windows => PackageManager::Unavailable,
    }
}

/// Verbosity level, from quiet to trace.
#[derive(Debug, Clone, Copy, PartialEq, Eq, Structural)]
pub enum Verbosity {
    /// Errors only
    Quiet,
    /// Info and above
    Normal,
    /// Debug and above
    Verbose,
    /// All messages
    Trace,
}

impl Verbosity {
    /// Create from a flag count: 0 is normal, 1 verbose, 2 or more trace.
    pub fn from_count(count: u8) -> (r: Verbosity)
        ensures
            count == 0 ==> r == Verbosity::Normal,
            count == 1 ==> r == Verbosity::Verbose,
            count >= 2 ==> r == Verbosity::Trace,
    {
        if count == 0 {
            Verbosity::Normal
        } else if count == 1 {
            Verbosity::Verbose
        } else {
            Verbosity::Trace
        }
    }
}

/// Relies on `num_cpus::get`: the number of available logical CPUs, which is
/// always at least one.
#[verifier::external_body]
fn available_cpus() -> (r: usize)
    ensures
        r >= 1,
{
    num_cpus::get()
}

/// The concurrency budget: 2 in CI mode, else the smaller of 4 and the
/// machine's CPU count.
pub fn default_jobs(ci_mode: bool) -> (r: usize)
    ensures
        ci_mode ==> r == 2,
        !ci_mode ==> 1 <= r <= 4,
{
    if ci_mode {
        2
    } else {
        let cpus = available_cpus();
        if cpus < 4 {
            cpus
        } else {
            4
        }
    }
}

/// Shared execution context: read-only after construction.
pub struct Context {
    /// Working-tree root directory
    pub repo_root: String,
    /// Virtual environment directory
    pub venv_path: String,
    /// Operating system type
    pub os: OsType,
    /// Package manager
    pub package_manager: PackageManager,
    /// Dry-run mode: no actual changes
    pub dry_run: bool,
    /// Verbosity level
    pub verbosity: Verbosity,
    /// Configuration
    pub config: Config,
    /// CI mode
    pub ci_mode: bool,
    /// Number of parallel jobs
    pub jobs: usize,
    /// Offline mode: no network
    pub offline: bool,
    /// Whether downgrades are allowed
    pub allow_downgrade: bool,
}

impl Context {
    /// Create a new context with defaults: the virtual environment lives
    /// under the working tree, verbosity is normal, CI mode is off.
    pub fn new(
        repo_root: String,
        os: OsType,
        package_manager: PackageManager,
        dry_run: bool,
    ) -> (r: Context)
        ensures
            r.repo_root@ == repo_root@,
            r.venv_path@ == repo_root@ + "/"@ + ".venv"@,
            r.os == os,
            r.package_manager == package_manager,
            r.dry_run == dry_run,
            r.verbosity == Verbosity::Normal,
            !r.ci_mode,
            !r.offline,
            !r.allow_downgrade,
            1 <= r.jobs <= 4,
    {
        let venv_path = join_path(repo_root.as_str(), ".venv");
        let jobs = default_jobs(false);
        Context {
            repo_root,
            venv_path,
            os,
            package_manager,
            dry_run,
            verbosity: Verbosity::Normal,
            config: Config::default(),
            ci_mode: false,
            jobs,
            offline: false,
            allow_downgrade: false,
        }
    }

    /// Create a context with full configuration; an absent job count falls
    /// back to the CI-aware default.
    pub fn with_config(
        repo_root: String,
        os: OsType,
        package_manager: PackageManager,
        dry_run: bool,
        verbosity: Verbosity,
        config: Config,
        ci_mode: bool,
        jobs: Option<usize>,
        offline: bool,
        allow_downgrade: bool,
    ) -> (r: Context)
        ensures
            r.repo_root@ == repo_root@,
            r.venv_path@ == repo_root@ + "/"@ + ".venv"@,
            r.os == os,
            r.package_manager == package_manager,
            r.dry_run == dry_run,
            r.verbosity == verbosity,
            r.ci_mode == ci_mode,
            r.offline == offline,
            r.allow_downgrade == allow_downgrade,
            jobs matches Some(j) ==> r.jobs == j,
            jobs is None && ci_mode ==> r.jobs == 2,
            jobs is None && !ci_mode ==> 1 <= r.jobs <= 4,
    {
        let venv_path = join_path(repo_root.as_str(), ".venv");
        let jobs = match jobs {
            Some(j) => j,
            None => default_jobs(ci_mode),
        };
        Context {
            repo_root,
            venv_path,
            os,
            package_manager,
            dry_run,
            verbosity,
            config,
            ci_mode,
            jobs,
            offline,
            allow_downgrade,
        }
    }

    /// Whether the context runs in CI mode.
    pub fn is_ci(&self) -> (r: bool)
        ensures
            r == self.ci_mode,
    {
        self.ci_mode
    }

    /// The virtual environment's python executable.
    pub fn venv_python(&self) -> (r: String)
        ensures
            r@ == self.venv_path@ + "/"@ + "bin/python3"@,
    {
        join_path(self.venv_path.as_str(), "bin/python3")
    }

    /// The virtual environment's pip executable.
    pub fn venv_pip(&self) -> (r: String)
        ensures
            r@ == self.venv_path@ + "/"@ + "bin/pip"@,
    {
        join_path(self.venv_path.as_str(), "bin/pip")
    }

    /// The repo-lint binary inside the virtual environment.
    pub fn repo_lint_bin(&self) -> (r: String)
        ensures
            r@ == self.venv_path@ + "/"@ + "bin/repo-lint"@,
    {
        join_path(self.venv_path.as_str(), "bin/repo-lint")
    }
}

/// Join a directory and a relative path with a slash.
pub fn join_path(dir: &str, rest: &str) -> (r: String)
    ensures
        r@ == dir@ + "/"@ + rest@,
{
    dir.to_owned().concat("/").concat(rest)
}

/// Information about a virtual environment's layout.
pub struct VenvInfo {
    /// Path to the venv root
    pub venv_path: String,
    /// Path to the python executable
    pub python_path: String,
    /// Path to the pip executable
    pub pip_path: String,
    /// Path to the bin directory
    pub bin_path: String,
    /// Python version, if detected
    pub python_version: Option<String>,
}

impl VenvInfo {
    /// Lay out the executables of a virtual environment; the caller reports
    /// whether the python executable actually exists on disk, and a missing
    /// one is an activation failure.
    pub fn from_path(venv_path: &str, python_exists: bool) -> (r: BootstrapResult<VenvInfo>)
        ensures
            python_exists <==> r is Ok,
            r matches Ok(v) ==> v.venv_path@ == venv_path@ && v.bin_path@ == venv_path@ + "/"@ + "bin"@
                && v.python_path@ == v.bin_path@ + "/"@ + "python3"@ && v.pip_path@ == v.bin_path@
                + "/"@ + "pip"@ && v.python_version is None,
            r matches Err(e) ==> e matches BootstrapError::VenvActivation(_),
    {
        let bin_path = join_path(venv_path, "bin");
        let python_path = join_path(bin_path.as_str(), "python3");
        let pip_path = join_path(bin_path.as_str(), "pip");
        if !python_exists {
            return Err(
                BootstrapError::VenvActivation(
                    "Virtual environment not found at: ".to_owned().concat(venv_path),
                ),
            );
        }
        Ok(
            VenvInfo {
                venv_path: venv_path.to_owned(),
                python_path,
                pip_path,
                bin_path,
                python_version: None,
            },
        )
    }

    /// The environment variables a venv activation sets.
    pub fn env_vars(&self) -> (r: Vec<(String, String)>)
        ensures
            r@.len() == 1,
            r@[0].0@ == "VIRTUAL_ENV"@,
            r@[0].1@ == self.venv_path@,
    {
        let mut env: Vec<(String, String)> = Vec::new();
        env.push(("VIRTUAL_ENV".to_owned(), self.venv_path.clone()));
        env
    }

    /// Prepend the venv bin directory to a search path.
    pub fn prepend_to_path(&self, current_path: Option<&str>) -> (r: String)
        ensures
            current_path matches Some(p) ==> r@ == self.bin_path@ + ":"@ + p@,
            current_path is None ==> r@ == self.bin_path@,
    {
        match current_path {
            Some(p) => self.bin_path.clone().concat(":").concat(p),
            None => self.bin_path.clone(),
        }
    }
}

} // verus!
