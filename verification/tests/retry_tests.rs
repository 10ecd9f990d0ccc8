use rs_w3r::retry::{
    backoff_delay_ms, decide_next, max_attempts, should_retry_for_status, AttemptOutcome,
    ResponseInfo, RetryDecision, TimingInfo,
};

#[test]
fn retryable_statuses() {
    assert!(should_retry_for_status(500));
    assert!(should_retry_for_status(503));
    assert!(should_retry_for_status(599));
    assert!(should_retry_for_status(429));
    assert!(should_retry_for_status(408));
}

#[test]
fn non_retryable_statuses() {
    assert!(!should_retry_for_status(200));
    assert!(!should_retry_for_status(301));
    assert!(!should_retry_for_status(404));
    assert!(!should_retry_for_status(499));
    assert!(!should_retry_for_status(600));
    assert!(!should_retry_for_status(100));
}

#[test]
fn max_attempts_is_retries_plus_one() {
    assert_eq!(max_attempts(0), 1);
    assert_eq!(max_attempts(3), 4);
    assert_eq!(max_attempts(u32::MAX), u32::MAX as u64 + 1);
}

#[test]
fn always_retryable_run_makes_retries_plus_one_attempts() {
    // A server that always answers 503, with retries = 3: exactly 4 attempts.
    let retries: u32 = 3;
    let max = max_attempts(retries);
    let mut attempts: u64 = 0;
    loop {
        attempts += 1;
        let outcome = AttemptOutcome::Response(503);
        match decide_next(&outcome, attempts, max) {
            RetryDecision::Retry => continue,
            RetryDecision::Terminate => break,
        }
    }
    assert_eq!(attempts, 4);
}

#[test]
fn transport_errors_are_retried_to_the_limit() {
    let max = max_attempts(2);
    let mut attempts: u64 = 0;
    loop {
        attempts += 1;
        match decide_next(&AttemptOutcome::TransportError, attempts, max) {
            RetryDecision::Retry => continue,
            RetryDecision::Terminate => break,
        }
    }
    assert_eq!(attempts, 3);
}

#[test]
fn non_retryable_status_terminates_at_once() {
    // Whatever the retry budget, a 200 or a 404 ends the run on attempt one.
    for status in [200u16, 404, 301] {
        let max = max_attempts(5);
        let d = decide_next(&AttemptOutcome::Response(status), 1, max);
        assert_eq!(d, RetryDecision::Terminate);
    }
}

#[test]
fn backoff_ladder_doubles() {
    assert_eq!(backoff_delay_ms(1000, 1), 1000);
    assert_eq!(backoff_delay_ms(1000, 2), 2000);
    assert_eq!(backoff_delay_ms(1000, 3), 4000);
    assert_eq!(backoff_delay_ms(1000, 4), 8000);
    assert_eq!(backoff_delay_ms(250, 3), 1000);
}

#[test]
fn backoff_saturates_instead_of_overflowing() {
    assert_eq!(backoff_delay_ms(u64::MAX, 2), u64::MAX);
    assert_eq!(backoff_delay_ms(1, 64), 9223372036854775808);
    assert_eq!(backoff_delay_ms(1, 65), u64::MAX);
}

#[test]
fn timing_info_keeps_its_durations() {
    let t = TimingInfo::new(12, 34, 56);
    assert_eq!(t.response_time, 12);
    assert_eq!(t.body_read_time, 34);
    assert_eq!(t.total_time, 56);
}

#[test]
fn response_info_keeps_its_fields() {
    let r = ResponseInfo::new(
        200,
        "HTTP/1.1".to_string(),
        vec![("content-type".to_string(), "text/plain".to_string())],
    );
    assert_eq!(r.status(), 200);
    assert_eq!(r.version(), "HTTP/1.1");
    assert_eq!(r.headers().len(), 1);
    assert_eq!(r.headers()[0].0, "content-type");
}
