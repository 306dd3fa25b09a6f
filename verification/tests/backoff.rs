use background_worker::backoff::backoff_delay_secs;
use background_worker::backoff::BACKOFF_BASE_SECS;
use background_worker::backoff::MAX_ATTEMPTS_LIMIT;
use background_worker::clock::is_valid_time;
use background_worker::clock::MAX_TIMESTAMP;
use background_worker::clock::MIN_TIMESTAMP;

#[test]
fn backoff_is_a_minute_doubled_per_failure() {
    assert_eq!(BACKOFF_BASE_SECS, 60);
    assert_eq!(backoff_delay_secs(0), 60);
    assert_eq!(backoff_delay_secs(1), 120);
    assert_eq!(backoff_delay_secs(2), 240);
    assert_eq!(backoff_delay_secs(10), 61_440);
    assert_eq!(backoff_delay_secs(MAX_ATTEMPTS_LIMIT), 60 * (1i64 << 32));
}

#[test]
fn backoff_grows_strictly() {
    let mut last = 0;
    for attempts in 0..=MAX_ATTEMPTS_LIMIT {
        let delay = backoff_delay_secs(attempts);
        assert!(delay > last);
        last = delay;
    }
}

#[test]
fn valid_times_are_the_years_0_to_9999() {
    assert!(is_valid_time(0));
    assert!(is_valid_time(MIN_TIMESTAMP));
    assert!(is_valid_time(MAX_TIMESTAMP));
    assert!(!is_valid_time(MIN_TIMESTAMP - 1));
    assert!(!is_valid_time(MAX_TIMESTAMP + 1));
    assert!(!is_valid_time(i64::MAX));
    assert_eq!(MIN_TIMESTAMP, -62_167_219_200);
    assert_eq!(MAX_TIMESTAMP, 253_402_300_799);
}
