use background_worker::error::ConfigurationError;
use background_worker::queue::QueueConfig;
use background_worker::queue::DEFAULT_QUEUE;

#[test]
fn empty_configuration() {
    let config = QueueConfig::new();
    assert_eq!(config.len(), 0);
    assert_eq!(config.num_workers("default"), 0);
    assert_eq!(config.total_slots(), Some(0));
}

#[test]
fn configured_queues_keep_their_order() {
    let mut config = QueueConfig::new();
    assert_eq!(config.configure_default_queue(5), Ok(()));
    assert_eq!(config.configure_queue("downloads", 1), Ok(()));
    assert_eq!(config.configure_queue("repository", 1), Ok(()));
    assert_eq!(config.len(), 3);
    assert_eq!(DEFAULT_QUEUE, "default");
    assert_eq!(config.get(0).name, "default");
    assert_eq!(config.get(0).num_workers, 5);
    assert_eq!(config.get(1).name, "downloads");
    assert_eq!(config.get(2).name, "repository");
    assert_eq!(config.num_workers("default"), 5);
    assert_eq!(config.num_workers("downloads"), 1);
    assert_eq!(config.num_workers("repository"), 1);
    assert_eq!(config.num_workers("other"), 0);
    assert_eq!(config.total_slots(), Some(7));
}

#[test]
fn configuring_again_replaces_the_count() {
    let mut config = QueueConfig::new();
    config.configure_queue("a", 2).unwrap();
    config.configure_queue("b", 3).unwrap();
    config.configure_queue("a", 9).unwrap();
    assert_eq!(config.len(), 2);
    assert_eq!(config.get(0).name, "a");
    assert_eq!(config.num_workers("a"), 9);
    assert_eq!(config.num_workers("b"), 3);
    assert_eq!(config.total_slots(), Some(12));
}

#[test]
fn empty_queue_name_is_refused() {
    let mut config = QueueConfig::new();
    assert_eq!(config.configure_queue("", 0), Err(ConfigurationError::EmptyQueueName));
    assert_eq!(config.configure_queue("", 3), Err(ConfigurationError::EmptyQueueName));
    assert_eq!(config.len(), 0);
}

#[test]
fn queue_without_workers_is_refused() {
    let mut config = QueueConfig::new();
    config.configure_queue("a", 2).unwrap();
    assert_eq!(config.configure_queue("a", 0), Err(ConfigurationError::NoWorkers));
    assert_eq!(config.configure_queue("b", 0), Err(ConfigurationError::NoWorkers));
    assert_eq!(config.configure_default_queue(0), Err(ConfigurationError::NoWorkers));
    assert_eq!(config.len(), 1);
    assert_eq!(config.num_workers("a"), 2);
}

#[test]
fn total_slots_detects_overflow() {
    let mut config = QueueConfig::new();
    config.configure_queue("a", usize::MAX).unwrap();
    assert_eq!(config.total_slots(), Some(usize::MAX));
    config.configure_queue("b", 1).unwrap();
    assert_eq!(config.total_slots(), None);
}
