use website_status_checker::build_result;
use website_status_checker::Outcome;

#[test]
fn success_carries_code_and_inputs() {
    let r = build_result("http://example.test/".to_string(), Ok(200), 37, 1_700_000_000_000);
    assert_eq!(r.url, "http://example.test/");
    assert_eq!(r.outcome, Outcome::Success(200));
    assert!(r.outcome.is_success());
    assert_eq!(r.elapsed_ms, 37);
    assert_eq!(r.observed_at_ms, 1_700_000_000_000);
}

#[test]
fn status_404_is_a_successful_check() {
    let r = build_result("http://example.test/missing".to_string(), Ok(404), 12, 99);
    assert_eq!(r.outcome, Outcome::Success(404));
    assert!(r.outcome.is_success());
}

#[test]
fn status_500_is_a_successful_check() {
    let r = build_result("http://example.test/broken".to_string(), Ok(500), 3, 0);
    assert_eq!(r.outcome, Outcome::Success(500));
}

#[test]
fn transport_failure_keeps_the_message() {
    let r = build_result(
        "http://example.test/".to_string(),
        Err("connection refused".to_string()),
        5000,
        -1,
    );
    assert_eq!(r.outcome, Outcome::Failure("connection refused".to_string()));
    assert!(!r.outcome.is_success());
    assert_eq!(r.elapsed_ms, 5000);
    assert_eq!(r.observed_at_ms, -1);
}

#[test]
fn timeout_message_is_a_failure_outcome() {
    let r = build_result(
        "http://example.test/slow".to_string(),
        Err("timed out reading response".to_string()),
        5000,
        7,
    );
    assert_eq!(r.outcome, Outcome::Failure("timed out reading response".to_string()));
}
