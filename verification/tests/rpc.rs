use tron_aml::rpc::{
    after_failure, effective_timeout_seconds, normalize_base_url, parse_suspended_seconds,
    retry_delay, RetryDelay, RetryStep, TRON_RPC_MAX_ATTEMPTS,
};

#[test]
fn parses_trongrid_suspension_window() {
    let message = r#"{"Error":"The key exceeds the frequency limit(15), and the query server is suspended for 30 s"}"#;

    assert_eq!(parse_suspended_seconds(message), Some(30));
}

#[test]
fn suspension_needs_digits_that_fit() {
    assert_eq!(parse_suspended_seconds("no marker here"), None);
    assert_eq!(parse_suspended_seconds("suspended for a while"), None);
    assert_eq!(parse_suspended_seconds("suspended for 18446744073709551616 s"), None);
    assert_eq!(parse_suspended_seconds("suspended for 18446744073709551615 s"), Some(u64::MAX));
    assert_eq!(parse_suspended_seconds("suspended for 7 s, suspended for 9 s"), Some(7));
}

#[test]
fn rate_limits_wait_one_second_more_than_announced() {
    assert_eq!(
        retry_delay("429 Too Many Requests: suspended for 12 s", 1),
        RetryDelay::Seconds(13)
    );
    assert_eq!(retry_delay("frequency limit reached", 3), RetryDelay::Seconds(30));
    assert_eq!(
        retry_delay("frequency limit, suspended for 18446744073709551615 s", 1),
        RetryDelay::Seconds(u64::MAX)
    );
}

#[test]
fn other_failures_back_off_by_half_a_second_per_attempt() {
    assert_eq!(retry_delay("connection reset", 1), RetryDelay::Millis(500));
    assert_eq!(retry_delay("connection reset", 4), RetryDelay::Millis(2000));
    assert_eq!(retry_delay("suspended for 5 s", 2), RetryDelay::Millis(1000));
}

#[test]
fn the_last_attempt_gives_up() {
    assert_eq!(after_failure(1, "boom"), RetryStep::Retry(RetryDelay::Millis(500)));
    assert_eq!(after_failure(TRON_RPC_MAX_ATTEMPTS - 1, "boom"), RetryStep::Retry(RetryDelay::Millis(2000)));
    assert_eq!(after_failure(TRON_RPC_MAX_ATTEMPTS, "boom"), RetryStep::GiveUp);
}

#[test]
fn base_urls_lose_trailing_slashes() {
    assert_eq!(normalize_base_url("https://api.trongrid.io///"), "https://api.trongrid.io");
    assert_eq!(normalize_base_url("https://api.trongrid.io"), "https://api.trongrid.io");
    assert_eq!(normalize_base_url("/"), "");
}

#[test]
fn timeouts_are_at_least_one_second() {
    assert_eq!(effective_timeout_seconds(0), 1);
    assert_eq!(effective_timeout_seconds(120), 120);
}
