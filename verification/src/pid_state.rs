//! The shared process-identifier cell and the lifecycle guard.
//!
//! `SharedPidState` holds the identifier of the currently running sidecar
//! process. The spawning task publishes the identifier right after a
//! successful spawn; the shutdown handler runs the lifecycle guard, which
//! decides to issue a forceful-termination request for the recorded process
//! (if any), clears the cell, and always ends with application exit code
//! zero. The caller keeps the cell behind an exclusive lock; every operation
//! here is a constant-time read or write of one optional integer, so no I/O
//! ever happens while the lock is held.

use vstd::prelude::*;

verus! {

/// What one run of the lifecycle guard decides: `kill_target` is the process
/// identifier that a forceful-termination request must be issued for
/// (`None`: no child was recorded, so nothing is killed), and `exit_code` is
/// the code the hosting application exits with — always zero, because window
/// destruction always ends the application, whether or not a kill was
/// attempted or succeeded.
#[derive(Clone, Copy, Debug)]
pub struct GuardOutcome {
    pub kill_target: Option<u32>,
    pub exit_code: i32,
}

/// The content of the cell after the guard has run: always empty, which is
/// what makes a repeated shutdown signal a no-op.
pub open spec fn guard_next(pid: Option<u32>) -> Option<u32> {
    None
}

/// What the guard decides when the cell holds `pid`: request a kill exactly
/// when a child is recorded, for exactly that process, and exit with code
/// zero either way.
pub open spec fn guard_outcome(pid: Option<u32>) -> GuardOutcome {
    GuardOutcome { kill_target: pid, exit_code: 0 }
}

/// The cell holding the identifier of the currently running sidecar process:
/// absent before spawn succeeds and after the guard has run.
pub struct SharedPidState {
    pub pid: Option<u32>,
}

impl SharedPidState {
    /// A fresh cell: no child has been spawned yet.
    pub fn new() -> (s: SharedPidState)
        ensures
            s.pid is None,
    {
        SharedPidState { pid: None }
    }

    /// Record the child's identifier, immediately after a successful spawn
    /// and before any stdout line is read, so that a concurrent shutdown
    /// always finds a valid identifier once spawn has succeeded.
    pub fn publish(&mut self, pid: u32)
        ensures
            final(self).pid == Some(pid),
    {
        self.pid = Some(pid);
    }

    /// The identifier of the currently recorded child, if any.
    pub fn current(&self) -> (r: Option<u32>)
        ensures
            r == self.pid,
    {
        self.pid
    }

    /// Run the lifecycle guard: decide which process to kill (the recorded
    /// one, if present), clear the cell, and tell the application to exit
    /// with code zero. The kill request itself and the process exit are
    /// performed by the caller on the returned outcome; a failed kill is
    /// logged there and never blocks shutdown.
    pub fn run_guard(&mut self) -> (outcome: GuardOutcome)
        ensures
            outcome == guard_outcome(old(self).pid),
            final(self).pid == guard_next(old(self).pid),
    {
        let target = self.pid;
        self.pid = None;
        GuardOutcome { kill_target: target, exit_code: 0 }
    }
}

/// Lifecycle-guard law: whatever the cell held, one run leaves it empty, and
/// a second run starting from the emptied cell requests no kill and still
/// exits with code zero — repeated shutdown signals are idempotent.
pub proof fn lemma_guard_idempotent(pid: Option<u32>)
    ensures
        guard_next(pid) is None,
        guard_outcome(guard_next(pid)).kill_target is None,
        guard_outcome(guard_next(pid)).exit_code == 0,
{
}

/// Lifecycle-guard law: triggered before spawn has recorded an identifier,
/// the guard attempts no kill and the application still exits with code
/// zero.
pub proof fn lemma_guard_before_spawn()
    ensures
        guard_outcome(None::<u32>).kill_target is None,
        guard_next(None::<u32>) is None,
        guard_outcome(None::<u32>).exit_code == 0,
{
}

} // verus!
