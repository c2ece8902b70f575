use sage_sidecar::pid_state::SharedPidState;
use sage_sidecar::supervise::Supervisor;
use sage_sidecar::supervise::SupervisorAction;
use sage_sidecar::supervise::SupervisorEvent;
use sage_sidecar::supervise::SupervisorPhase;

#[test]
fn guard_clears_the_identifier_and_is_idempotent() {
    let mut state = SharedPidState::new();
    assert_eq!(state.current(), None);

    state.publish(4242);
    assert_eq!(state.current(), Some(4242));

    let first = state.run_guard();
    assert_eq!(first.kill_target, Some(4242));
    assert_eq!(first.exit_code, 0);
    assert_eq!(state.current(), None);

    let second = state.run_guard();
    assert_eq!(second.kill_target, None);
    assert_eq!(second.exit_code, 0);
    assert_eq!(state.current(), None);
}

#[test]
fn guard_before_spawn_kills_nothing_and_exits_normally() {
    let mut state = SharedPidState::new();
    let outcome = state.run_guard();
    assert_eq!(outcome.kill_target, None);
    assert_eq!(outcome.exit_code, 0);
    assert_eq!(state.current(), None);
}

#[test]
fn supervisor_full_run() {
    let mut sup = Supervisor::new();
    assert_eq!(sup.phase, SupervisorPhase::AwaitingSpawn);

    let a = sup.step(SupervisorEvent::SpawnSucceeded(Some(77)));
    assert_eq!(a, SupervisorAction::PublishPid(77));
    assert_eq!(sup.phase, SupervisorPhase::Draining);

    let a = sup.step(SupervisorEvent::StdoutLine(String::from("warming up")));
    assert_eq!(a, SupervisorAction::Ignore);
    assert_eq!(sup.phase, SupervisorPhase::Draining);

    let a = sup.step(SupervisorEvent::StdoutLine(String::from(
        "Starting Sage Desktop Server on port 54321.",
    )));
    assert_eq!(a, SupervisorAction::EmitReady(54321));
    assert_eq!(sup.phase, SupervisorPhase::Draining);

    let a = sup.step(SupervisorEvent::StdoutLine(String::from(
        "Starting Sage Desktop Server on port 54321.",
    )));
    assert_eq!(a, SupervisorAction::EmitReady(54321));

    let a = sup.step(SupervisorEvent::StdoutClosed);
    assert_eq!(a, SupervisorAction::AwaitExit);
    assert_eq!(sup.phase, SupervisorPhase::AwaitingExit);

    let a = sup.step(SupervisorEvent::Exited);
    assert_eq!(a, SupervisorAction::Finish);
    assert_eq!(sup.phase, SupervisorPhase::Finished);
}

#[test]
fn supervisor_spawn_without_identifier_publishes_nothing() {
    let mut sup = Supervisor::new();
    let a = sup.step(SupervisorEvent::SpawnSucceeded(None));
    assert_eq!(a, SupervisorAction::Ignore);
    assert_eq!(sup.phase, SupervisorPhase::Draining);
}

#[test]
fn supervisor_spawn_failure_aborts_startup() {
    let mut sup = Supervisor::new();
    let a = sup.step(SupervisorEvent::SpawnFailed);
    assert_eq!(a, SupervisorAction::AbortStartup);
    assert_eq!(sup.phase, SupervisorPhase::Aborted);
}

#[test]
fn supervisor_ignores_events_out_of_phase() {
    let mut sup = Supervisor::new();
    let a = sup.step(SupervisorEvent::Exited);
    assert_eq!(a, SupervisorAction::Ignore);
    assert_eq!(sup.phase, SupervisorPhase::AwaitingSpawn);

    let a = sup.step(SupervisorEvent::StdoutLine(String::from(
        "Starting Sage Desktop Server on port 1.",
    )));
    assert_eq!(a, SupervisorAction::Ignore);
    assert_eq!(sup.phase, SupervisorPhase::AwaitingSpawn);

    let _ = sup.step(SupervisorEvent::SpawnSucceeded(Some(9)));
    let a = sup.step(SupervisorEvent::SpawnSucceeded(Some(10)));
    assert_eq!(a, SupervisorAction::Ignore);
    assert_eq!(sup.phase, SupervisorPhase::Draining);
}
