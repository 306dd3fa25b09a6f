use background_worker::supervisor::RunnerEvent;
use background_worker::supervisor::Supervisor;
use background_worker::supervisor::SupervisorAction;
use background_worker::supervisor::SupervisorState;
use background_worker::supervisor::MAX_FAILURES;
use background_worker::supervisor::PARK_INTERVAL_SECS;

#[test]
fn fresh_supervisor_is_running() {
    let supervisor = Supervisor::new();
    assert_eq!(supervisor.state, SupervisorState::Running);
    assert_eq!(supervisor.failures, 0);
    assert_eq!(MAX_FAILURES, 5);
    assert_eq!(PARK_INTERVAL_SECS, 60);
}

#[test]
fn read_only_database_parks_the_supervisor() {
    let supervisor = Supervisor::new();
    assert_eq!(supervisor.precheck(true), SupervisorAction::Park { warn_every_secs: 60 });
    assert_eq!(supervisor.precheck(false), SupervisorAction::Build);
}

#[test]
fn four_failures_then_success_keeps_running() {
    let mut supervisor = Supervisor::new();
    for seen in 1..=4 {
        assert_eq!(supervisor.on_event(RunnerEvent::Failure), SupervisorAction::Rebuild);
        assert_eq!(supervisor.failures, seen);
        assert_eq!(supervisor.state, SupervisorState::Running);
    }
    assert_eq!(supervisor.state, SupervisorState::Running);
    assert_eq!(supervisor.failures, 4);
}

#[test]
fn sixth_failure_in_a_row_aborts() {
    let mut supervisor = Supervisor::new();
    for _ in 0..5 {
        assert_eq!(supervisor.on_event(RunnerEvent::Failure), SupervisorAction::Rebuild);
    }
    assert_eq!(supervisor.state, SupervisorState::Running);
    assert_eq!(supervisor.on_event(RunnerEvent::Failure), SupervisorAction::Abort);
    assert_eq!(supervisor.state, SupervisorState::Failed);
    assert_eq!(supervisor.failures, 6);
}

#[test]
fn failed_supervisor_stays_failed() {
    let mut supervisor = Supervisor::new();
    for _ in 0..6 {
        supervisor.on_event(RunnerEvent::Failure);
    }
    assert_eq!(supervisor.on_event(RunnerEvent::Failure), SupervisorAction::Abort);
    assert_eq!(supervisor.on_event(RunnerEvent::CleanShutdown), SupervisorAction::Abort);
    assert_eq!(supervisor.state, SupervisorState::Failed);
    assert_eq!(supervisor.failures, 6);
}

#[test]
fn clean_shutdown_exits_and_resets_the_count() {
    let mut supervisor = Supervisor::new();
    assert_eq!(supervisor.on_event(RunnerEvent::CleanShutdown), SupervisorAction::Exit);
    assert_eq!(supervisor.failures, 0);
    for _ in 0..3 {
        supervisor.on_event(RunnerEvent::Failure);
    }
    assert_eq!(supervisor.on_event(RunnerEvent::CleanShutdown), SupervisorAction::Exit);
    assert_eq!(supervisor.state, SupervisorState::Running);
    assert_eq!(supervisor.failures, 0);
    for _ in 0..5 {
        assert_eq!(supervisor.on_event(RunnerEvent::Failure), SupervisorAction::Rebuild);
    }
    assert_eq!(supervisor.on_event(RunnerEvent::Failure), SupervisorAction::Abort);
}
