//! Heartbeat staleness for the watchdog that reverts to Laptop when the
//! poll loop stalls. Times are monotonic nanosecond timestamps and
//! durations are nanoseconds.

use vstd::prelude::*;
use crate::state::elapsed;

verus! {

/// Stale when strictly more than `timeout` has passed since the last
/// heartbeat (a heartbeat exactly `timeout` old is not yet stale).
pub open spec fn stale(last_heartbeat: u64, now: u64, timeout: u64) -> bool {
    elapsed(last_heartbeat, now) > timeout
}

/// Whether a heartbeat taken at `last_heartbeat` is stale at `now`.
pub fn is_stale(last_heartbeat: u64, now: u64, timeout: u64) -> (r: bool)
    ensures
        r == stale(last_heartbeat, now, timeout),
{
    let waited: u64 = if last_heartbeat <= now {
        now - last_heartbeat
    } else {
        0
    };
    waited > timeout
}

/// The time of the poll loop's last heartbeat.
pub struct Watchdog {
    last_heartbeat: u64,
}

impl View for Watchdog {
    type V = u64;

    closed spec fn view(&self) -> u64 {
        self.last_heartbeat
    }
}

impl Watchdog {
    /// A watchdog whose first heartbeat is `now`.
    pub fn new(now: u64) -> (w: Self)
        ensures
            w@ == now,
    {
        Watchdog { last_heartbeat: now }
    }

    /// Records a heartbeat at `now`.
    pub fn heartbeat(&mut self, now: u64)
        ensures
            final(self)@ == now,
    {
        self.last_heartbeat = now;
    }

    /// The time of the last heartbeat.
    pub fn last_heartbeat(&self) -> (t: u64)
        ensures
            t == self@,
    {
        self.last_heartbeat
    }

    /// Whether the last heartbeat is stale at `now`.
    pub fn is_stale_at(&self, now: u64, timeout: u64) -> (r: bool)
        ensures
            r == stale(self@, now, timeout),
    {
        is_stale(self.last_heartbeat, now, timeout)
    }
}

/// A heartbeat keeps the watchdog quiet for `timeout` after it: right
/// after a heartbeat at `t`, no time from `t` up to `t + timeout` is
/// stale, whatever came before.
pub proof fn lemma_heartbeat_defers_staleness(t: u64, now: u64, timeout: u64)
    requires
        t <= now <= t + timeout,
    ensures
        !stale(t, now, timeout),
{
}

/// Staleness only grows with time: once stale at `now`, also stale at
/// every later time.
pub proof fn lemma_stale_persists(last: u64, now: u64, later: u64, timeout: u64)
    requires
        stale(last, now, timeout),
        now <= later,
    ensures
        stale(last, later, timeout),
{
}

} // verus!
