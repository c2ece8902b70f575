//! The supervising task's step function.
//!
//! One background task spawns the sidecar, drains its stdout and waits for
//! its exit. The decisions of that task are gathered here as a state
//! machine: the caller performs the outside work (the spawn itself, reading
//! the next line, the blocking wait), hands the outcome in as an event, and
//! carries out the returned action. A spawn failure is fatal and aborts
//! startup; a stream that becomes unreadable is handed in as if the stream
//! had ended; the exit status reported after the wait is logged and never
//! treated as an error.

use vstd::prelude::*;

use crate::detect::line_event;

verus! {

/// Where the supervising task stands.
#[derive(Clone, Copy, Debug, PartialEq, Eq, Structural)]
pub enum SupervisorPhase {
    /// The spawn has been requested and its outcome is awaited.
    AwaitingSpawn,
    /// The child runs and its stdout is drained line by line.
    Draining,
    /// Stdout has ended; the child's exit is awaited.
    AwaitingExit,
    /// The child has exited and its status has been reported.
    Finished,
    /// The spawn failed; startup was aborted.
    Aborted,
}

/// What the outside world reports to the supervising task.
#[derive(Debug)]
pub enum SupervisorEvent {
    /// The spawn succeeded; the child's process identifier, when the
    /// operating system reported one.
    SpawnSucceeded(Option<u32>),
    /// The operating system refused to create the child process.
    SpawnFailed,
    /// The next line read from the child's stdout.
    StdoutLine(String),
    /// The child's stdout ended, or became unreadable.
    StdoutClosed,
    /// The wait on the child completed.
    Exited,
}

/// What the supervising task asks its caller to do next.
#[derive(Clone, Copy, Debug, PartialEq, Eq, Structural)]
pub enum SupervisorAction {
    /// Record this identifier in the shared cell, before any line is read.
    PublishPid(u32),
    /// Deliver a readiness event with this port to the presentation layer.
    EmitReady(u16),
    /// Nothing to do; read on.
    Ignore,
    /// The spawn failed: abort application startup.
    AbortStartup,
    /// Begin the blocking wait for the child's exit.
    AwaitExit,
    /// Log the exit status; the task is done.
    Finish,
}

/// The transition table of the supervising task: next phase and action for
/// a phase and an event. An event that cannot arise in the current phase
/// changes nothing.
pub open spec fn step_spec(phase: SupervisorPhase, ev: SupervisorEvent) -> (
    SupervisorPhase,
    SupervisorAction,
) {
    match (phase, ev) {
        (SupervisorPhase::AwaitingSpawn, SupervisorEvent::SpawnSucceeded(pid)) => (
            SupervisorPhase::Draining,
            match pid {
                Some(p) => SupervisorAction::PublishPid(p),
                None => SupervisorAction::Ignore,
            },
        ),
        (SupervisorPhase::AwaitingSpawn, SupervisorEvent::SpawnFailed) => (
            SupervisorPhase::Aborted,
            SupervisorAction::AbortStartup,
        ),
        (SupervisorPhase::Draining, SupervisorEvent::StdoutLine(l)) => (
            SupervisorPhase::Draining,
            match line_event(l@) {
                Some(p) => SupervisorAction::EmitReady(p),
                None => SupervisorAction::Ignore,
            },
        ),
        (SupervisorPhase::Draining, SupervisorEvent::StdoutClosed) => (
            SupervisorPhase::AwaitingExit,
            SupervisorAction::AwaitExit,
        ),
        (SupervisorPhase::AwaitingExit, SupervisorEvent::Exited) => (
            SupervisorPhase::Finished,
            SupervisorAction::Finish,
        ),
        (p, _) => (p, SupervisorAction::Ignore),
    }
}

/// The supervising task, reduced to its decisions.
pub struct Supervisor {
    pub phase: SupervisorPhase,
}

impl Supervisor {
    /// A fresh task, about to learn how the spawn went.
    pub fn new() -> (s: Supervisor)
        ensures
            s.phase == SupervisorPhase::AwaitingSpawn,
    {
        Supervisor { phase: SupervisorPhase::AwaitingSpawn }
    }

    /// Take one step: consume the event the outside world reported and
    /// return the action the caller must carry out, exactly as the
    /// transition table says.
    pub fn step(&mut self, ev: SupervisorEvent) -> (action: SupervisorAction)
        ensures
            (final(self).phase, action) == step_spec(old(self).phase, ev),
    {
        match (self.phase, ev) {
            (SupervisorPhase::AwaitingSpawn, SupervisorEvent::SpawnSucceeded(pid)) => {
                self.phase = SupervisorPhase::Draining;
                match pid {
                    Some(p) => SupervisorAction::PublishPid(p),
                    None => SupervisorAction::Ignore,
                }
            },
            (SupervisorPhase::AwaitingSpawn, SupervisorEvent::SpawnFailed) => {
                self.phase = SupervisorPhase::Aborted;
                SupervisorAction::AbortStartup
            },
            (SupervisorPhase::Draining, SupervisorEvent::StdoutLine(l)) => {
                match crate::detect::detect_line(l.as_str()) {
                    Some(p) => SupervisorAction::EmitReady(p),
                    None => SupervisorAction::Ignore,
                }
            },
            (SupervisorPhase::Draining, SupervisorEvent::StdoutClosed) => {
                self.phase = SupervisorPhase::AwaitingExit;
                SupervisorAction::AwaitExit
            },
            (SupervisorPhase::AwaitingExit, SupervisorEvent::Exited) => {
                self.phase = SupervisorPhase::Finished;
                SupervisorAction::Finish
            },
            (_, _) => SupervisorAction::Ignore,
        }
    }
}

} // verus!
