use background_worker::error::ConfigurationError;
use background_worker::job::JobStatus;
use background_worker::jobs::sync_updates_feed::SyncUpdatesFeed;
use background_worker::jobs::update_default_version::UpdateDefaultVersion;
use background_worker::queue::QueueConfig;
use background_worker::registry::BackgroundJob;
use background_worker::registry::JobDefinition;
use background_worker::registry::Registry;
use background_worker::runner::is_shut_down;
use background_worker::runner::Runner;
use background_worker::store::JobStore;
use background_worker::worker::SlotAction;
use background_worker::worker::SlotState;
use background_worker::worker::WorkerSlot;

const T0: i64 = 1_700_000_000;

fn production_queues() -> QueueConfig {
    let mut queues = QueueConfig::new();
    queues.configure_default_queue(5).unwrap();
    queues.configure_queue("downloads", 1).unwrap();
    queues.configure_queue("repository", 1).unwrap();
    queues
}

fn production_registry() -> Registry {
    let mut registry = Registry::new();
    registry.register(SyncUpdatesFeed::definition()).unwrap();
    registry.register(UpdateDefaultVersion::definition()).unwrap();
    registry.register(JobDefinition::new("clone_index").with_queue("repository")).unwrap();
    registry
}

#[test]
fn runner_starts_one_slot_per_worker() {
    let runner = Runner::new(&production_registry(), &production_queues(), 600).unwrap();
    assert_eq!(runner.num_slots(), 7);
    assert_eq!(runner.staleness_threshold_secs(), 600);
    let queues: Vec<&str> = (0..7).map(|i| runner.slot(i).queue.as_str()).collect();
    assert_eq!(
        queues,
        vec!["default", "default", "default", "default", "default", "downloads", "repository"]
    );
    for i in 0..7 {
        assert_eq!(runner.slot(i).worker_id, i as u64);
        assert_eq!(runner.slot(i).state, SlotState::Idle);
    }
    let slots = runner.into_slots();
    assert_eq!(slots.len(), 7);
    assert_eq!(slots[6].queue, "repository");
}

#[test]
fn runner_without_queues_has_no_slots() {
    let runner = Runner::new(&Registry::new(), &QueueConfig::new(), 0).unwrap();
    assert_eq!(runner.num_slots(), 0);
    assert!(is_shut_down(&runner.into_slots()));
}

#[test]
fn runner_refuses_a_job_type_without_workers() {
    let mut queues = QueueConfig::new();
    queues.configure_default_queue(5).unwrap();
    let outcome = Runner::new(&production_registry(), &queues, 600);
    assert_eq!(outcome.err(), Some(ConfigurationError::UnconfiguredQueue));
}

#[test]
fn runner_refuses_more_slots_than_can_be_numbered() {
    let mut queues = QueueConfig::new();
    queues.configure_default_queue(usize::MAX).unwrap();
    queues.configure_queue("downloads", 1).unwrap();
    let outcome = Runner::new(&Registry::new(), &queues, 600);
    assert_eq!(outcome.err(), Some(ConfigurationError::TooManySlots));
}

#[test]
fn unserved_type_is_reported_before_slot_overflow() {
    let mut queues = QueueConfig::new();
    queues.configure_default_queue(usize::MAX).unwrap();
    queues.configure_queue("downloads", 1).unwrap();
    let outcome = Runner::new(&production_registry(), &queues, 600);
    assert_eq!(outcome.err(), Some(ConfigurationError::UnconfiguredQueue));
}

#[test]
fn sweep_uses_the_staleness_threshold() {
    let runner = Runner::new(&production_registry(), &production_queues(), 600).unwrap();
    let mut store = JobStore::new(production_registry());
    let id = store.enqueue_job(&SyncUpdatesFeed::definition(), vec![], T0).unwrap();
    store.claim_next("default", 0, T0).unwrap();
    assert_eq!(runner.sweep(&mut store, T0 + 600), 0);
    assert_eq!(store.get(id).unwrap().status, JobStatus::Locked);
    assert_eq!(runner.sweep(&mut store, T0 + 601), 1);
    assert_eq!(store.get(id).unwrap().status, JobStatus::Retryable);
    assert_eq!(store.get(id).unwrap().attempts, 0);
    assert_eq!(runner.sweep(&mut store, T0 + 5000), 0);
}

#[test]
fn shutdown_is_over_when_every_slot_has_stopped() {
    let runner = Runner::new(&production_registry(), &production_queues(), 600).unwrap();
    let mut slots: Vec<WorkerSlot> = runner.into_slots();
    let mut store = JobStore::new(production_registry());
    assert!(!is_shut_down(&slots));
    for slot in slots.iter_mut().skip(1) {
        assert!(matches!(slot.poll(&mut store, true, T0), SlotAction::Exit));
    }
    assert!(!is_shut_down(&slots));
    assert!(matches!(slots[0].poll(&mut store, true, T0), SlotAction::Exit));
    assert!(is_shut_down(&slots));
}
