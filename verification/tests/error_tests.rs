use neonmachines::error::{
    Admission, circuit_open_text, is_retryable_error, CircuitBreaker, NeonmachinesError, RetryAction,
    RetryState, RetryableErrorType,
};
use std::time::Duration;

#[test]
fn retryable_errors_by_their_words() {
    assert_eq!(is_retryable_error("network unreachable"), Some(RetryableErrorType::NetworkError));
    assert_eq!(is_retryable_error("connection reset"), Some(RetryableErrorType::NetworkError));
    assert_eq!(is_retryable_error("request timeout"), Some(RetryableErrorType::NetworkError));
    assert_eq!(is_retryable_error("HTTP 429 Too Many Requests"), Some(RetryableErrorType::RateLimited));
    assert_eq!(is_retryable_error("rate limit exceeded"), Some(RetryableErrorType::RateLimited));
    assert_eq!(is_retryable_error("rate limited"), None);
    assert_eq!(is_retryable_error("deadline passed"), Some(RetryableErrorType::TimeoutError));
    assert_eq!(is_retryable_error("resource busy"), Some(RetryableErrorType::ResourceExhausted));
    assert_eq!(is_retryable_error("quota exhausted"), Some(RetryableErrorType::ResourceExhausted));
    assert_eq!(is_retryable_error("temporary glitch"), Some(RetryableErrorType::TemporaryFailure));
    assert_eq!(is_retryable_error("please retry"), Some(RetryableErrorType::TemporaryFailure));
    assert_eq!(is_retryable_error("service unavailable"), Some(RetryableErrorType::TemporaryFailure));
    assert_eq!(is_retryable_error("Network(\"down\")"), Some(RetryableErrorType::NetworkError));
    assert_eq!(is_retryable_error("Service UNAVAILABLE"), Some(RetryableErrorType::TemporaryFailure));
    assert_eq!(is_retryable_error("invalid api key"), None);
    assert_eq!(is_retryable_error("Network down"), Some(RetryableErrorType::NetworkError));
}

#[test]
fn retries_wait_and_stop_at_the_limit() {
    let mut st = RetryState::new(3, 1000);
    assert_eq!(st.attempt(), 0);
    assert_eq!(st.on_failure("connection refused", 2000), RetryAction::Retry { wait_ms: 1000 });
    assert_eq!(st.attempt(), 1);
    assert_eq!(st.delay_ms(), 2000);
    assert_eq!(st.on_failure("connection refused", 4000), RetryAction::Retry { wait_ms: 2000 });
    assert_eq!(st.attempt(), 2);
    assert_eq!(st.on_failure("connection refused", 8000), RetryAction::GiveUp);
    assert_eq!(st.attempt(), 2);
}

#[test]
fn non_retryable_errors_stop_at_once() {
    let mut st = RetryState::new(5, 100);
    assert_eq!(st.on_failure("bad request", 200), RetryAction::GiveUp);
    assert_eq!(st.attempt(), 0);
    let mut one = RetryState::new(1, 100);
    assert_eq!(one.on_failure("timeout", 200), RetryAction::GiveUp);
}

#[test]
fn breaker_opens_after_enough_recent_failures() {
    let mut cb = CircuitBreaker::new(2, Duration::from_secs(60));
    assert!(!cb.is_circuit_open());
    assert!(cb.should_allow_request());
    cb.record_failure();
    assert_eq!(cb.failure_count, 1);
    assert!(!cb.is_circuit_open());
    cb.record_failure();
    assert!(cb.is_circuit_open());
    assert!(!cb.should_allow_request());
    cb.record_success();
    assert_eq!(cb.failure_count, 0);
    assert!(cb.last_failure_time.is_none());
    assert!(!cb.is_circuit_open());
}

#[test]
fn breaker_closes_again_after_the_timeout() {
    let mut cb = CircuitBreaker::new(1, Duration::from_millis(0));
    cb.record_failure();
    assert!(!cb.is_circuit_open());
    assert!(cb.is_open_given(true));
    assert!(!cb.is_open_given(false));
}

#[test]
fn default_breaker() {
    let cb = CircuitBreaker::default();
    assert_eq!(cb.max_failures, 5);
    assert_eq!(cb.failure_count, 0);
    assert_eq!(cb.timeout_duration, Duration::from_secs(30));
    assert_eq!(circuit_open_text(30), "Circuit breaker is open. Please wait 30 seconds.");
}

#[test]
fn error_messages_name_their_kind() {
    assert_eq!(NeonmachinesError::config("bad key".to_string()).message(), "Configuration error: bad key");
    assert_eq!(NeonmachinesError::unexpected("x".to_string()).message(), "Unexpected error: x");
    assert_eq!(NeonmachinesError::Io("missing".to_string()).message(), "IO error: missing");
    assert_eq!(NeonmachinesError::rate_limit("slow".to_string()).message(), "Rate limiting error: slow");
}

#[test]
fn breaker_admits_and_counts_calls() {
    let mut cb = CircuitBreaker::new(2, std::time::Duration::from_secs(60));
    assert_eq!(cb.admit_call(), Admission::Go);
    cb.end_call(false);
    assert_eq!(cb.failure_count, 1);
    assert_eq!(cb.admit_call(), Admission::Go);
    cb.end_call(false);
    assert_eq!(
        cb.admit_call(),
        Admission::Refused("Circuit breaker is open. Please wait 60 seconds.".to_string())
    );
    assert!(cb.is_open_after(5, 60_000_000_000));
    assert!(!cb.is_open_after(60_000_000_000, 60_000_000_000));
    cb.end_call(true);
    assert_eq!(cb.failure_count, 0);
    assert!(cb.last_failure_time.is_none());
    assert_eq!(cb.admit_call(), Admission::Go);
    assert!(!cb.is_open_after(0, 60_000_000_000));
}

#[test]
fn breaker_allows_exactly_when_closed() {
    let mut cb = CircuitBreaker::new(3, Duration::from_secs(60));
    for _ in 0..2 {
        cb.record_failure();
        assert!(!cb.is_circuit_open());
        assert!(cb.should_allow_request());
    }
    cb.record_failure();
    assert_eq!(cb.failure_count, 3);
    assert!(cb.is_circuit_open());
    let before = cb;
    assert!(!cb.should_allow_request());
    assert_eq!(cb.failure_count, before.failure_count);
    assert_eq!(cb.last_failure_time, before.last_failure_time);
    cb.record_success();
    assert!(!cb.is_circuit_open());
    assert!(cb.should_allow_request());
    assert_eq!(cb.failure_count, 0);
}
