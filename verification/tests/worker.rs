use background_worker::job::JobStatus;
use background_worker::jobs::update_default_version::UpdateDefaultVersion;
use background_worker::registry::BackgroundJob;
use background_worker::registry::JobDefinition;
use background_worker::registry::Registry;
use background_worker::store::JobStore;
use background_worker::worker::JobOutcome;
use background_worker::worker::Settlement;
use background_worker::worker::SlotAction;
use background_worker::worker::SlotState;
use background_worker::worker::WorkerSlot;
use background_worker::worker::POLL_INTERVAL_SECS;
use background_worker::worker::UNKNOWN_JOB_TYPE;

const T0: i64 = 1_700_000_000;

fn store() -> JobStore {
    let mut registry = Registry::new();
    registry.register(UpdateDefaultVersion::definition()).unwrap();
    registry.register(JobDefinition::new("flaky").with_max_attempts(1)).unwrap();
    JobStore::new(registry)
}

fn claim(slot: &mut WorkerSlot, store: &mut JobStore, now: i64) -> u64 {
    match slot.poll(store, false, now) {
        SlotAction::Execute(job) => job.id,
        other => panic!("expected a job, got {:?}", other),
    }
}

#[test]
fn new_slot_is_idle() {
    let slot = WorkerSlot::new(3, "downloads");
    assert_eq!(slot.worker_id, 3);
    assert_eq!(slot.queue, "downloads");
    assert_eq!(slot.state, SlotState::Idle);
    assert!(!slot.is_stopped());
    assert_eq!(POLL_INTERVAL_SECS, 1);
}

#[test]
fn idle_slot_sleeps_on_an_empty_queue() {
    let mut store = store();
    let mut slot = WorkerSlot::new(0, "default");
    assert!(matches!(slot.poll(&mut store, false, T0), SlotAction::Sleep { seconds: 1 }));
    assert_eq!(slot.state, SlotState::Idle);
    store.enqueue("flaky", "downloads", 0, vec![], None, T0).unwrap();
    assert!(matches!(slot.poll(&mut store, false, T0), SlotAction::Sleep { seconds: 1 }));
}

#[test]
fn slot_executes_and_completes_a_job() {
    let mut store = store();
    let id = store.enqueue_job(&UpdateDefaultVersion::definition(), vec![7], T0).unwrap();
    let mut slot = WorkerSlot::new(4, "default");
    match slot.poll(&mut store, false, T0 + 1) {
        SlotAction::Execute(job) => {
            assert_eq!(job.id, id);
            assert_eq!(job.payload, vec![7]);
            assert_eq!(job.lock_holder, Some(4));
            assert_eq!(job.locked_at, Some(T0 + 1));
        }
        other => panic!("expected a job, got {:?}", other),
    }
    assert_eq!(slot.state, SlotState::Running { job_id: id });
    assert_eq!(store.get(id).unwrap().status, JobStatus::Locked);
    assert_eq!(slot.report(&mut store, &JobOutcome::Success, T0 + 2), Settlement::Completed);
    assert_eq!(slot.state, SlotState::Idle);
    assert!(store.get(id).is_none());
    assert!(matches!(slot.poll(&mut store, false, T0 + 3), SlotAction::Sleep { seconds: 1 }));
}

#[test]
fn running_slot_is_busy() {
    let mut store = store();
    store.enqueue("flaky", "default", 0, vec![], None, T0).unwrap();
    let other = store.enqueue("flaky", "default", 0, vec![], None, T0).unwrap();
    let mut slot = WorkerSlot::new(0, "default");
    let id = claim(&mut slot, &mut store, T0);
    assert!(matches!(slot.poll(&mut store, false, T0), SlotAction::Busy));
    assert!(matches!(slot.poll(&mut store, true, T0), SlotAction::Busy));
    assert_eq!(slot.state, SlotState::Running { job_id: id });
    assert_eq!(store.get(other).unwrap().status, JobStatus::Pending);
}

#[test]
fn execution_error_is_retried_then_final() {
    let mut store = store();
    let id = store.enqueue("flaky", "default", 0, vec![], None, T0).unwrap();
    let mut slot = WorkerSlot::new(0, "default");
    assert_eq!(claim(&mut slot, &mut store, T0), id);
    let boom = JobOutcome::ExecutionError("boom".to_string());
    assert_eq!(slot.report(&mut store, &boom, T0 + 5), Settlement::WillRetry { not_before: T0 + 125 });
    assert_eq!(slot.state, SlotState::Idle);
    assert_eq!(store.get(id).unwrap().last_error.as_deref(), Some("boom"));
    assert!(matches!(slot.poll(&mut store, false, T0 + 124), SlotAction::Sleep { seconds: 1 }));
    assert_eq!(claim(&mut slot, &mut store, T0 + 125), id);
    assert_eq!(slot.report(&mut store, &boom, T0 + 130), Settlement::FailedForGood);
    assert_eq!(store.get(id).unwrap().status, JobStatus::Failed);
    assert_eq!(store.get(id).unwrap().attempts, 2);
    assert!(matches!(slot.poll(&mut store, false, T0 + 1_000_000), SlotAction::Sleep { seconds: 1 }));
}

#[test]
fn decode_error_is_final() {
    let mut store = store();
    let id = store.enqueue_job(&UpdateDefaultVersion::definition(), vec![0xff], T0).unwrap();
    let mut slot = WorkerSlot::new(0, "default");
    assert_eq!(claim(&mut slot, &mut store, T0), id);
    let bad = JobOutcome::DecodeError("not a crate id".to_string());
    assert_eq!(slot.report(&mut store, &bad, T0 + 1), Settlement::FailedForGood);
    let row = store.get(id).unwrap();
    assert_eq!(row.status, JobStatus::Failed);
    assert_eq!(row.attempts, 0);
    assert_eq!(row.last_error.as_deref(), Some("not a crate id"));
    assert!(matches!(slot.poll(&mut store, false, T0 + 1_000_000), SlotAction::Sleep { seconds: 1 }));
}

#[test]
fn unknown_job_type_is_failed_at_claim_time() {
    let mut store = store();
    let stray = store.enqueue("renamed_job", "default", 50, vec![], None, T0).unwrap();
    let known = store.enqueue("flaky", "default", 0, vec![], None, T0).unwrap();
    let mut slot = WorkerSlot::new(0, "default");
    match slot.poll(&mut store, false, T0) {
        SlotAction::Rejected { job_id } => assert_eq!(job_id, stray),
        other => panic!("expected a rejection, got {:?}", other),
    }
    assert_eq!(slot.state, SlotState::Idle);
    let row = store.get(stray).unwrap();
    assert_eq!(row.status, JobStatus::Failed);
    assert_eq!(row.attempts, 0);
    assert_eq!(row.last_error.as_deref(), Some(UNKNOWN_JOB_TYPE));
    assert_eq!(UNKNOWN_JOB_TYPE, "unknown job type");
    assert_eq!(claim(&mut slot, &mut store, T0), known);
}

#[test]
fn report_without_a_running_job_changes_nothing() {
    let mut store = store();
    let id = store.enqueue("flaky", "default", 0, vec![], None, T0).unwrap();
    let mut slot = WorkerSlot::new(0, "default");
    assert_eq!(slot.report(&mut store, &JobOutcome::Success, T0), Settlement::NotRunning);
    assert_eq!(slot.state, SlotState::Idle);
    assert_eq!(store.len(), 1);
    assert_eq!(store.get(id).unwrap().status, JobStatus::Pending);
    assert!(matches!(slot.poll(&mut store, true, T0), SlotAction::Exit));
    assert_eq!(slot.report(&mut store, &JobOutcome::Success, T0), Settlement::NotRunning);
    assert!(slot.is_stopped());
}

#[test]
fn shutdown_drains_the_running_job() {
    let mut store = store();
    let first = store.enqueue("flaky", "default", 0, vec![], None, T0).unwrap();
    let second = store.enqueue("flaky", "default", 0, vec![], None, T0).unwrap();
    let mut slot = WorkerSlot::new(0, "default");
    assert_eq!(claim(&mut slot, &mut store, T0), first);
    assert!(matches!(slot.poll(&mut store, true, T0), SlotAction::Busy));
    assert!(!slot.is_stopped());
    assert_eq!(slot.report(&mut store, &JobOutcome::Success, T0 + 1), Settlement::Completed);
    assert!(matches!(slot.poll(&mut store, true, T0 + 2), SlotAction::Exit));
    assert!(slot.is_stopped());
    assert_eq!(store.get(second).unwrap().status, JobStatus::Pending);
    assert!(matches!(slot.poll(&mut store, false, T0 + 3), SlotAction::Exit));
    assert_eq!(store.get(second).unwrap().status, JobStatus::Pending);
}

#[test]
fn report_after_the_lock_was_lost() {
    let mut store = store();
    let id = store.enqueue("flaky", "default", 0, vec![], None, T0).unwrap();
    let mut slow = WorkerSlot::new(0, "default");
    assert_eq!(claim(&mut slow, &mut store, T0), id);
    assert_eq!(store.reap_stale_locks(60, T0 + 61), 1);
    let boom = JobOutcome::ExecutionError("late".to_string());
    assert_eq!(slow.report(&mut store, &boom, T0 + 62), Settlement::LockLost);
    assert_eq!(store.get(id).unwrap().attempts, 0);
    assert_eq!(store.get(id).unwrap().status, JobStatus::Retryable);

    let mut slot = WorkerSlot::new(1, "default");
    assert_eq!(claim(&mut slot, &mut store, T0 + 63), id);
    assert_eq!(store.reap_stale_locks(60, T0 + 200), 1);
    let bad = JobOutcome::DecodeError("late".to_string());
    assert_eq!(slot.report(&mut store, &bad, T0 + 201), Settlement::LockLost);

    let mut third = WorkerSlot::new(2, "default");
    assert_eq!(claim(&mut third, &mut store, T0 + 202), id);
    assert!(store.complete(id));
    assert_eq!(third.report(&mut store, &JobOutcome::Success, T0 + 203), Settlement::LockLost);
    assert_eq!(store.len(), 0);
}

#[test]
fn two_slots_never_run_the_same_job() {
    let mut store = store();
    let only = store.enqueue("flaky", "default", 0, vec![], None, T0).unwrap();
    let mut a = WorkerSlot::new(0, "default");
    let mut b = WorkerSlot::new(1, "default");
    assert_eq!(claim(&mut a, &mut store, T0), only);
    assert!(matches!(b.poll(&mut store, false, T0), SlotAction::Sleep { seconds: 1 }));
    assert_eq!(store.get(only).unwrap().lock_holder, Some(0));
}
