//! Progress reporting shapes: modes and task states.
//!
//! Rendering (terminal bars, CI text, JSON lines) belongs to the driving
//! binary; the mode selection rule and the task state machine's shapes live
//! here.

use vstd::prelude::*;

verus! {

/// Progress mode.
#[derive(Debug, Clone, Copy, PartialEq, Eq, Structural)]
pub enum ProgressMode {
    /// Interactive terminal with progress bars
    Interactive,
    /// CI mode with plain text
    Ci,
    /// JSON structured output
    Json,
}

/// Task status.
pub enum TaskStatus {
    /// Task is pending
    Pending,
    /// Task is running
    Running,
    /// Task completed successfully
    Success,
    /// Task failed
    Failed { error: String },
    /// Task was skipped
    Skipped { reason: String },
}

/// Pick the progress mode: structured output when JSON was requested, an
/// interactive display only on a terminal outside CI, plain text otherwise.
pub fn choose_mode(json: bool, is_ci: bool, is_tty: bool) -> (r: ProgressMode)
    ensures
        json ==> r == ProgressMode::Json,
        !json && is_tty && !is_ci ==> r == ProgressMode::Interactive,
        !json && (!is_tty || is_ci) ==> r == ProgressMode::Ci,
{
    if json {
        ProgressMode::Json
    } else if is_tty && !is_ci {
        ProgressMode::Interactive
    } else {
        ProgressMode::Ci
    }
}

} // verus!
