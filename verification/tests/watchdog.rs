use minibookd::watchdog::{is_stale, Watchdog};
use std::time::Duration;

fn nanos(d: Duration) -> u64 {
    d.as_nanos() as u64
}

const T0: u64 = 1_000_000_000;

#[test]
fn fresh_heartbeat_is_not_stale() {
    let t0 = T0;
    assert!(!is_stale(
        t0,
        t0 + nanos(Duration::from_secs(1)),
        nanos(Duration::from_secs(5))
    ));
}

#[test]
fn heartbeat_older_than_timeout_is_stale() {
    let t0 = T0;
    assert!(is_stale(
        t0,
        t0 + nanos(Duration::from_secs(6)),
        nanos(Duration::from_secs(5))
    ));
}

#[test]
fn heartbeat_exactly_at_timeout_is_not_yet_stale() {
    let t0 = T0;
    assert!(!is_stale(
        t0,
        t0 + nanos(Duration::from_secs(5)),
        nanos(Duration::from_secs(5))
    ));
}

#[test]
fn clock_going_backwards_is_not_stale() {
    assert!(!is_stale(T0, T0 - 1, 0));
}

#[test]
fn heartbeat_resets_staleness() {
    let timeout = nanos(Duration::from_secs(5));
    let mut w = Watchdog::new(T0);
    assert_eq!(w.last_heartbeat(), T0);
    assert!(w.is_stale_at(T0 + nanos(Duration::from_secs(6)), timeout));
    w.heartbeat(T0 + nanos(Duration::from_secs(4)));
    assert!(!w.is_stale_at(T0 + nanos(Duration::from_secs(6)), timeout));
    assert!(!w.is_stale_at(T0 + nanos(Duration::from_secs(9)), timeout));
    assert!(w.is_stale_at(T0 + nanos(Duration::from_secs(9)) + 1, timeout));
}
