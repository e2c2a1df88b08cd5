use oom_alerter::alert::{available_slope, record_notification, should_notify};
use oom_alerter::clock::{Elapsed, Timestamp};
use oom_alerter::policy::State;

#[test]
fn slope_does_not_underflow_when_memory_increases() {
    assert_eq!(available_slope(Some(20), 30, Elapsed::from_secs(1)), 0);
    assert_eq!(available_slope(Some(30), 20, Elapsed::from_secs(2)), 5);
    assert_eq!(available_slope(None, 20, Elapsed::from_secs(1)), 0);
}

#[test]
fn slope_boundary_and_nanosecond_precision() {
    // Zero elapsed
    assert_eq!(available_slope(Some(100), 50, Elapsed::zero()), 0);
    // Elapsed > 300s
    assert_eq!(available_slope(Some(100), 50, Elapsed::from_secs(301)), 0);
    // Subsecond: 50 bytes decrease in 500ms (500_000_000 ns) -> 100 bytes/sec
    assert_eq!(
        available_slope(Some(100), 50, Elapsed::from_millis(500)),
        100
    );
    // Rounding: 1 byte decrease in 300_000_000 ns -> 1 * 1e9 / 3e8 = 3.33 -> 3 bytes/sec
    assert_eq!(
        available_slope(Some(10), 9, Elapsed::from_nanos(300_000_000)),
        3
    );
    // Rounding: 2 bytes decrease in 300_000_000 ns -> 2 * 1e9 / 3e8 = 6.67 -> 7 bytes/sec
    assert_eq!(
        available_slope(Some(10), 8, Elapsed::from_nanos(300_000_000)),
        7
    );
    // Large decrease: 10 GiB in 1 second
    let gib10 = 10 * 1024 * 1024 * 1024;
    assert_eq!(
        available_slope(Some(gib10), 0, Elapsed::from_secs(1)),
        gib10
    );
}

#[test]
fn slope_edges() {
    // exactly 300 s still counts
    assert_eq!(available_slope(Some(600), 0, Elapsed::from_secs(300)), 2);
    // halves round up
    assert_eq!(available_slope(Some(1), 0, Elapsed::from_secs(2)), 1);
    // a fall over one nanosecond is capped
    assert_eq!(
        available_slope(Some(u64::MAX), 0, Elapsed::from_nanos(1)),
        u64::MAX
    );
    // no fall
    assert_eq!(available_slope(Some(7), 7, Elapsed::from_secs(1)), 0);
}

#[test]
fn reminder_and_escalation_timing() {
    let t0 = Timestamp::from_nanos(1_000_000_000_000);
    let t_59s = t0.checked_add(Elapsed::from_secs(59)).unwrap();
    let t_60s = t0.checked_add(Elapsed::from_secs(60)).unwrap();
    let t_300s = t0.checked_add(Elapsed::from_secs(300)).unwrap();

    // Normal state should never notify
    assert!(!should_notify(
        State::Normal,
        State::Normal,
        None,
        t0,
        300,
        60
    ));

    // First notification in Warning (last_notify is None)
    assert!(should_notify(
        State::Warning,
        State::Normal,
        None,
        t0,
        300,
        60
    ));

    // Warning reminder: not due at 59s or 299s, due at 300s
    assert!(!should_notify(
        State::Warning,
        State::Warning,
        Some(t0),
        t_59s,
        300,
        60
    ));
    assert!(should_notify(
        State::Warning,
        State::Warning,
        Some(t0),
        t_300s,
        300,
        60
    ));

    // Immediate escalation from Warning to Critical even if 0s since last warning
    assert!(should_notify(
        State::Critical,
        State::Warning,
        Some(t0),
        t0,
        300,
        60
    ));

    // Critical reminder: not due at 59s, due at 60s
    assert!(!should_notify(
        State::Critical,
        State::Critical,
        Some(t0),
        t_59s,
        300,
        60
    ));
    assert!(should_notify(
        State::Critical,
        State::Critical,
        Some(t0),
        t_60s,
        300,
        60
    ));
}

#[test]
fn reminder_edges() {
    let t0 = Timestamp::from_nanos(5_000_000_000);
    let almost = t0.checked_add(Elapsed::from_millis(999)).unwrap();
    let one = t0.checked_add(Elapsed::from_secs(1)).unwrap();
    // a zero repeat interval counts as one second
    assert!(!should_notify(State::Critical, State::Critical, Some(t0), almost, 0, 0));
    assert!(should_notify(State::Critical, State::Critical, Some(t0), one, 0, 0));
    // a last notification in the future is never due
    assert!(!should_notify(State::Warning, State::Warning, Some(one), t0, 1, 1));
    // Normal after an alert never notifies, even with nothing sent
    assert!(!should_notify(State::Normal, State::Critical, None, t0, 1, 1));
    // Critical to Warning follows the Warning interval
    assert!(!should_notify(State::Warning, State::Critical, Some(t0), one, 2, 1));
}

#[test]
fn clock_arithmetic() {
    let t = Timestamp::from_nanos(10);
    assert_eq!(t.checked_duration_since(Timestamp::from_nanos(4)), Some(Elapsed::from_nanos(6)));
    assert_eq!(t.checked_duration_since(Timestamp::from_nanos(11)), None);
    assert_eq!(Timestamp::from_nanos(u128::MAX).checked_add(Elapsed::from_nanos(1)), None);
    assert_eq!(Elapsed::from_millis(1500).as_secs(), 1);
    assert_eq!(Elapsed::from_secs(2).as_nanos(), 2_000_000_000);
}

#[test]
fn notification_bookkeeping() {
    let t0 = Timestamp::from_nanos(1);
    let t1 = Timestamp::from_nanos(2);
    assert_eq!(record_notification(State::Warning, true, t1, Some(t0)), Some(t1));
    assert_eq!(record_notification(State::Warning, false, t1, Some(t0)), Some(t0));
    assert_eq!(record_notification(State::Critical, false, t1, None), None);
    assert_eq!(record_notification(State::Normal, true, t1, Some(t0)), None);
}
