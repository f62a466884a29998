use nacelle::edge::pump::incoming_body_is_empty;
use nacelle::edge::NacelleHttpLimits;
use nacelle::time::Duration;

#[test]
fn http_limits_default_to_bounded_edge_timeouts() {
    let limits = NacelleHttpLimits::default();

    assert_eq!(limits.header_read_timeout, Some(Duration::from_secs(30)));
    assert_eq!(
        limits.request_body_read_timeout,
        Some(Duration::from_secs(30))
    );
    assert_eq!(limits.response_write_timeout, Some(Duration::from_secs(30)));
    assert!(limits.keep_alive);
    assert_eq!(limits.max_connection_age, None);
}

#[test]
fn only_exact_zero_body_hint_skips_body_pump() {
    assert!(incoming_body_is_empty(Some(0)));
    assert!(!incoming_body_is_empty(Some(1)));
    assert!(!incoming_body_is_empty(None));
}

#[test]
fn http_limits_are_set_one_by_one() {
    let limits = NacelleHttpLimits::default()
        .with_header_read_timeout(Duration::from_secs(1))
        .with_request_body_read_timeout(Duration::from_secs(2))
        .with_response_write_timeout(Duration::from_secs(3))
        .with_keep_alive(false)
        .with_max_connection_age(Duration::from_secs(4));

    assert_eq!(limits.header_read_timeout, Some(Duration::from_secs(1)));
    assert_eq!(
        limits.request_body_read_timeout,
        Some(Duration::from_secs(2))
    );
    assert_eq!(limits.response_write_timeout, Some(Duration::from_secs(3)));
    assert!(!limits.keep_alive);
    assert_eq!(limits.max_connection_age, Some(Duration::from_secs(4)));
}
