use corky_relay::lifecycle::{NextStep, Retry, RETRY_ATTEMPTS, RETRY_BACKOFF_MS};

#[test]
fn success_ends_the_sequence() {
    let mut retry = Retry::bounded(3, 10);
    assert_eq!(retry.record(true, false), NextStep::Done);
    assert_eq!(retry.failures, 0);
    let mut supervised = Retry::unbounded(10);
    assert_eq!(supervised.record(true, true), NextStep::Done);
}

#[test]
fn bounded_retry_gives_up_at_the_limit() {
    let mut retry = Retry::bounded(RETRY_ATTEMPTS, RETRY_BACKOFF_MS);
    assert_eq!(retry.record(false, false), NextStep::Backoff { millis: 3000 });
    assert_eq!(retry.record(false, false), NextStep::Backoff { millis: 3000 });
    assert_eq!(retry.record(false, false), NextStep::GiveUp);
    assert_eq!(retry.failures, 3);
}

#[test]
fn success_after_failures_is_done() {
    let mut retry = Retry::bounded(3, 5);
    assert_eq!(retry.record(false, false), NextStep::Backoff { millis: 5 });
    assert_eq!(retry.record(true, false), NextStep::Done);
    assert_eq!(retry.failures, 1);
}

#[test]
fn limit_of_zero_or_one_allows_one_attempt() {
    let mut none = Retry::bounded(0, 5);
    assert_eq!(none.record(false, false), NextStep::GiveUp);
    let mut one = Retry::bounded(1, 5);
    assert_eq!(one.record(false, false), NextStep::GiveUp);
}

#[test]
fn unbounded_retry_goes_on_until_shutdown() {
    let mut retry = Retry::unbounded(RETRY_BACKOFF_MS);
    for _ in 0..100 {
        assert_eq!(retry.record(false, false), NextStep::Backoff { millis: RETRY_BACKOFF_MS });
    }
    assert_eq!(retry.failures, 100);
    assert_eq!(retry.record(false, true), NextStep::GiveUp);
}

#[test]
fn shutdown_stops_a_bounded_retry_early() {
    let mut retry = Retry::bounded(3, 5);
    assert_eq!(retry.record(false, true), NextStep::GiveUp);
    assert_eq!(retry.failures, 1);
}

#[test]
fn failure_count_does_not_wrap() {
    let mut retry = Retry { attempts: None, backoff_ms: 1, failures: usize::MAX };
    assert_eq!(retry.record(false, false), NextStep::Backoff { millis: 1 });
    assert_eq!(retry.failures, usize::MAX);
}
