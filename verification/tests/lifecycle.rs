use nacelle::lifecycle::{
    begin_shutdown_wait, duration_millis, end_shutdown_wait, NacelleDrainDeadline, ShutdownWait,
};
use nacelle::time::Duration;

#[test]
fn deadlines_read_back_in_milliseconds() {
    let mut deadline = NacelleDrainDeadline::new(Duration::from_millis(1234));
    assert_eq!(deadline.get(), Duration::from_millis(1234));
    deadline.set(Duration::from_secs(2));
    assert_eq!(deadline.get(), Duration::from_millis(2000));
    assert_eq!(
        NacelleDrainDeadline::default().get(),
        Duration::from_secs(30)
    );
    let fraction = Duration::checked_new(0, 1_999_999).expect("a fraction below a second");
    deadline.set(fraction);
    assert_eq!(deadline.get(), Duration::from_millis(1));
}

#[test]
fn long_deadlines_are_capped() {
    assert_eq!(duration_millis(Duration::from_secs(u64::MAX)), u64::MAX);
    assert_eq!(duration_millis(Duration::from_millis(7)), 7);
}

#[test]
fn shutdown_is_seen_at_once_or_after_a_change() {
    assert!(matches!(begin_shutdown_wait(true), ShutdownWait::Observed));
    assert!(matches!(
        begin_shutdown_wait(false),
        ShutdownWait::AwaitChange
    ));
    assert!(end_shutdown_wait(true, true));
    assert!(!end_shutdown_wait(true, false));
    assert!(!end_shutdown_wait(false, true));
}

#[test]
fn durations_are_whole_nanoseconds() {
    let span = Duration::checked_new(3, 500_000_001).expect("a fraction below a second");
    assert_eq!(span.as_secs(), 3);
    assert_eq!(span.subsec_nanos(), 500_000_001);
    assert_eq!(span.as_millis(), 3500);
    assert!(!span.is_zero());
    assert!(Duration::from_secs(0).is_zero());
    assert_eq!(Duration::checked_new(0, 1_000_000_000), None);
    assert_eq!(
        span.saturating_sub(Duration::checked_new(1, 600_000_000).expect("span")),
        Duration::checked_new(1, 900_000_001).expect("span")
    );
    assert_eq!(
        Duration::from_secs(1).saturating_sub(span),
        Duration::from_secs(0)
    );
}

#[test]
fn the_last_set_of_a_deadline_decides() {
    let mut deadline = NacelleDrainDeadline::default();
    deadline.set(Duration::from_millis(7));
    deadline.set(Duration::from_millis(9));
    assert_eq!(deadline.get(), Duration::from_millis(9));
}
