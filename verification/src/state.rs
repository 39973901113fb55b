//! Laptop/Tablet hinge state machine with hysteresis and debounce.
//!
//! Angles and tilts are signed integers in millidegrees (1/1000 of a
//! degree); times are monotonic timestamps in nanoseconds from an
//! arbitrary origin fixed by the caller, and durations are nanoseconds.
//!
//! The signed hinge angle covers the full `(-180, 180]` degree range, so
//! both a low-side and a high-side threshold are meaningful. The
//! thresholds are derived from 18 real readings: every observed
//! Laptop-expected reading fell in [45.1, 110.4] degrees, every observed
//! Tablet-expected reading fell outside that range on both sides (as low
//! as -144.1, as high as 149.0). The constants leave margins inside those
//! gaps rather than sitting on the observed boundaries.

use vstd::prelude::*;

verus! {

/// Below this angle (coming from Laptop), the hinge is considered folded
/// into tablet mode on the low side (near fully closed): 20 degrees.
pub const TABLET_ENTER_LOW: i32 = 20_000;

/// Above this angle (coming from Tablet, low side), the hinge is
/// considered back in laptop mode: 35 degrees. Set above
/// `TABLET_ENTER_LOW` so a reading sitting on the boundary does not
/// flip-flop.
pub const LAPTOP_ENTER_LOW: i32 = 35_000;

/// Above this angle (coming from Laptop), the hinge is considered folded
/// into tablet mode on the high side (tent/presentation): 146 degrees.
/// The nearest real Tablet reading here was 149.0 degrees; the 3-degree
/// margin is thin, known and accepted.
pub const TABLET_ENTER_HIGH: i32 = 146_000;

/// Below this angle (coming from Tablet, high side), the hinge is
/// considered back in laptop mode: 138 degrees. Set below
/// `TABLET_ENTER_HIGH` so a reading sitting on the boundary does not
/// flip-flop.
pub const LAPTOP_ENTER_HIGH: i32 = 138_000;

/// Gates the low-side Tablet entry only: 8 degrees of base tilt. A low
/// hinge angle alone cannot tell a lid closing while the unit rests on a
/// surface (never more than 2 degrees of base tilt in real data) from a
/// unit folded closed and picked up (at least 62.6 degrees). The
/// high-side entry is intentionally left ungated.
pub const BASE_TILT_THRESHOLD: i32 = 8_000;

/// A candidate state must persist this long before it is confirmed:
/// 750 milliseconds, in nanoseconds.
pub const DEBOUNCE: u64 = 750_000_000;

#[derive(Debug, Clone, Copy, PartialEq, Eq, Structural)]
pub enum HingeState {
    Laptop,
    Tablet,
}

#[derive(Debug, Clone, Copy, PartialEq, Eq, Structural)]
pub enum Transition {
    ToLaptop,
    ToTablet,
}

/// The state a transition leads to.
pub open spec fn transition_target(t: Transition) -> HingeState {
    match t {
        Transition::ToLaptop => HingeState::Laptop,
        Transition::ToTablet => HingeState::Tablet,
    }
}

/// The transition that leads to `s`.
pub open spec fn transition_to(s: HingeState) -> Transition {
    match s {
        HingeState::Laptop => Transition::ToLaptop,
        HingeState::Tablet => Transition::ToTablet,
    }
}

/// Time from `since` to `now`, zero when `now` is earlier (a monotonic
/// clock's saturating difference).
pub open spec fn elapsed(since: u64, now: u64) -> nat {
    if since <= now {
        (now - since) as nat
    } else {
        0
    }
}

/// The zone a reading falls in, given the state the machine is in:
/// from Laptop, Tablet is entered below `TABLET_ENTER_LOW` with base tilt
/// above `BASE_TILT_THRESHOLD`, or above `TABLET_ENTER_HIGH`; from Tablet,
/// Laptop is entered strictly between `LAPTOP_ENTER_LOW` and
/// `LAPTOP_ENTER_HIGH`. Everything else keeps the current state.
pub open spec fn zone(angle: int, tilt: int, current: HingeState) -> HingeState {
    match current {
        HingeState::Laptop => {
            if (angle < TABLET_ENTER_LOW && tilt > BASE_TILT_THRESHOLD) || angle
                > TABLET_ENTER_HIGH {
                HingeState::Tablet
            } else {
                HingeState::Laptop
            }
        },
        HingeState::Tablet => {
            if LAPTOP_ENTER_LOW < angle < LAPTOP_ENTER_HIGH {
                HingeState::Laptop
            } else {
                HingeState::Tablet
            }
        },
    }
}

/// The abstract state of a `StateMachine`: the confirmed state and the
/// pending candidate with the time it was first seen.
pub struct MachineView {
    pub current: HingeState,
    pub candidate: Option<(HingeState, u64)>,
}

/// A pending candidate always differs from the confirmed state.
pub open spec fn machine_ok(m: MachineView) -> bool {
    m.candidate matches Some((s, _)) ==> s != m.current
}

/// One reading applied to the machine: the next abstract state and the
/// transition reported, if any.
///
/// A reading in the current state's own zone drops any candidate. A
/// reading pointing elsewhere starts a candidate at `now` unless that
/// same candidate is already pending; a pending candidate is confirmed
/// once it has lasted at least `DEBOUNCE`.
pub open spec fn step(m: MachineView, angle: int, tilt: int, now: u64) -> (
    MachineView,
    Option<Transition>,
) {
    let target = zone(angle, tilt, m.current);
    if target == m.current {
        (MachineView { current: m.current, candidate: None }, None)
    } else {
        match m.candidate {
            Some((s, since)) if s == target => {
                if elapsed(since, now) >= DEBOUNCE {
                    (MachineView { current: target, candidate: None }, Some(transition_to(target)))
                } else {
                    (m, None)
                }
            },
            _ => (MachineView { current: m.current, candidate: Some((target, now)) }, None),
        }
    }
}

pub struct StateMachine {
    current: HingeState,
    candidate: Option<(HingeState, u64)>,
}

impl View for StateMachine {
    type V = MachineView;

    closed spec fn view(&self) -> MachineView {
        MachineView { current: self.current, candidate: self.candidate }
    }
}

impl StateMachine {
    #[verifier::type_invariant]
    spec fn candidate_differs(&self) -> bool {
        machine_ok(self@)
    }

    /// A machine in Laptop with no pending candidate, the same as
    /// `from_state(HingeState::Laptop)`.
    pub fn new() -> (sm: Self)
        ensures
            sm@ == (MachineView { current: HingeState::Laptop, candidate: None }),
    {
        StateMachine { current: HingeState::Laptop, candidate: None }
    }

    /// The confirmed state.
    pub fn current(&self) -> (s: HingeState)
        ensures
            s == self@.current,
    {
        self.current
    }

    /// A machine seeded in `current` with no pending candidate, so no
    /// debounce is needed to be in that state.
    pub fn from_state(current: HingeState) -> (sm: Self)
        ensures
            sm@ == (MachineView { current, candidate: None }),
    {
        StateMachine { current, candidate: None }
    }

    /// Stateless one-shot classification, for reconciling hardware with
    /// no prior state to apply hysteresis against (startup, resume):
    /// the zone of the reading as seen from Laptop, so both dead bands
    /// resolve to Laptop, the same neutral prior a fresh machine has.
    pub fn classify(angle: i32, tilt: i32) -> (s: HingeState)
        ensures
            s == zone(angle as int, tilt as int, HingeState::Laptop),
    {
        Self::zone_for(angle, tilt, HingeState::Laptop)
    }

    fn zone_for(angle: i32, tilt: i32, current: HingeState) -> (s: HingeState)
        ensures
            s == zone(angle as int, tilt as int, current),
    {
        match current {
            HingeState::Laptop => {
                let low_side_tablet = angle < TABLET_ENTER_LOW && tilt > BASE_TILT_THRESHOLD;
                let high_side_tablet = angle > TABLET_ENTER_HIGH;
                if low_side_tablet || high_side_tablet {
                    HingeState::Tablet
                } else {
                    HingeState::Laptop
                }
            },
            HingeState::Tablet => {
                if angle > LAPTOP_ENTER_LOW && angle < LAPTOP_ENTER_HIGH {
                    HingeState::Laptop
                } else {
                    HingeState::Tablet
                }
            },
        }
    }

    /// Feeds one reading taken at `now`. Returns the transition when a
    /// candidate state has just been confirmed, and `None` otherwise.
    pub fn update(&mut self, angle: i32, tilt: i32, now: u64) -> (res: Option<Transition>)
        ensures
            machine_ok(final(self)@),
            final(self)@ == step(old(self)@, angle as int, tilt as int, now).0,
            res == step(old(self)@, angle as int, tilt as int, now).1,
            res is None ==> final(self)@.current == old(self)@.current,
            res matches Some(t) ==> {
                &&& transition_target(t) == final(self)@.current
                &&& final(self)@.current != old(self)@.current
                &&& final(self)@.candidate is None
            },
    {
        proof {
            use_type_invariant(&*self);
        }
        let target = Self::zone_for(angle, tilt, self.current);
        if target == self.current {
            self.candidate = None;
            return None;
        }
        match self.candidate {
            Some((state, since)) => {
                if state == target {
                    let waited: u64 = if since <= now {
                        now - since
                    } else {
                        0
                    };
                    if waited >= DEBOUNCE {
                        self.candidate = None;
                        self.current = target;
                        return Some(
                            match target {
                                HingeState::Laptop => Transition::ToLaptop,
                                HingeState::Tablet => Transition::ToTablet,
                            },
                        );
                    }
                } else {
                    self.candidate = Some((target, now));
                }
            },
            None => {
                self.candidate = Some((target, now));
            },
        }
        None
    }
}


/// The machine after the first `n` of `readings`, each an
/// `(angle, tilt, time)` triple fed to `step` in order.
pub open spec fn run(m: MachineView, readings: Seq<(int, int, u64)>, n: nat) -> MachineView
    decreases n,
{
    if n == 0 {
        m
    } else {
        let r = readings[n - 1];
        step(run(m, readings, (n - 1) as nat), r.0, r.1, r.2).0
    }
}

/// No flip-flop at a boundary: a reading whose zone moves the state away
/// from `s` keeps the new state where it is, i.e. the zone seen from the
/// zone of a reading is that zone again.
pub proof fn lemma_zone_settles(angle: int, tilt: int, s: HingeState)
    ensures
        zone(angle, tilt, zone(angle, tilt, s)) == zone(angle, tilt, s),
{
}

/// The dead bands: from Laptop, no reading in
/// `[TABLET_ENTER_LOW, TABLET_ENTER_HIGH]` points to Tablet, nor a low
/// reading without enough base tilt; from Tablet, no reading at or below
/// `LAPTOP_ENTER_LOW` or at or above `LAPTOP_ENTER_HIGH` points to Laptop.
pub proof fn lemma_dead_bands(angle: int, tilt: int)
    ensures
        TABLET_ENTER_LOW <= angle <= TABLET_ENTER_HIGH ==> zone(angle, tilt, HingeState::Laptop)
            == HingeState::Laptop,
        angle <= TABLET_ENTER_HIGH && tilt <= BASE_TILT_THRESHOLD ==> zone(
            angle,
            tilt,
            HingeState::Laptop,
        ) == HingeState::Laptop,
        angle <= LAPTOP_ENTER_LOW || angle >= LAPTOP_ENTER_HIGH ==> zone(
            angle,
            tilt,
            HingeState::Tablet,
        ) == HingeState::Tablet,
{
}

/// A reading that points away from the current state and is held: fed
/// once at `t0` and again at some `t1` at least `DEBOUNCE` later (with any
/// pending candidate no later than `t0`), it has
/// confirmed the new state by the second reading, and exactly one of the
/// two calls reported the transition.
pub proof fn lemma_held_reading_confirms(m: MachineView, angle: int, tilt: int, t0: u64, t1: u64)
    requires
        machine_ok(m),
        zone(angle, tilt, m.current) != m.current,
        m.candidate matches Some((_, since)) ==> since <= t0,
        t1 >= t0 + DEBOUNCE,
    ensures
        ({
            let target = zone(angle, tilt, m.current);
            let (m1, r1) = step(m, angle, tilt, t0);
            let (m2, r2) = step(m1, angle, tilt, t1);
            &&& m2.current == target
            &&& m2.candidate is None
            &&& (r1 == Some(transition_to(target)) && r2 is None) || (r1 is None && r2 == Some(
                transition_to(target),
            ))
        }),
{
    lemma_zone_settles(angle, tilt, m.current);
}

/// Readings `j` up to (not including) `n` all found the machine
/// confirmed in `c` and all pointed to `s`.
pub open spec fn pointed_steadily(
    m: MachineView,
    readings: Seq<(int, int, u64)>,
    j: nat,
    n: nat,
    c: HingeState,
    s: HingeState,
) -> bool {
    forall|k: nat|
        #![trigger run(m, readings, k)]
        j <= k < n ==> run(m, readings, k).current == c && zone(
            readings[k as int].0,
            readings[k as int].1,
            c,
        ) == s
}

/// What a pending candidate records, after `n` readings from a machine
/// with no candidate: it was started by some earlier reading `j` at its
/// own time, and every reading from `j` on pointed to the candidate from
/// an unchanged confirmed state.
pub open spec fn candidate_backed(m: MachineView, readings: Seq<(int, int, u64)>, n: nat) -> bool {
    run(m, readings, n).candidate matches Some((s, since)) ==> exists|j: nat|
        #![trigger readings[j as int]]
        j < n && readings[j as int].2 == since && pointed_steadily(
            m,
            readings,
            j,
            n,
            run(m, readings, n).current,
            s,
        )
}

proof fn lemma_extend_steady(
    m: MachineView,
    readings: Seq<(int, int, u64)>,
    j: nat,
    p: nat,
    c: HingeState,
    s: HingeState,
)
    requires
        j <= p,
        pointed_steadily(m, readings, j, p, c, s),
        run(m, readings, p).current == c,
        zone(readings[p as int].0, readings[p as int].1, c) == s,
    ensures
        pointed_steadily(m, readings, j, p + 1, c, s),
{
    assert forall|k: nat| #![trigger run(m, readings, k)] j <= k < p + 1 implies run(
        m,
        readings,
        k,
    ).current == c && zone(readings[k as int].0, readings[k as int].1, c) == s by {
        if k < p {
        } else {
            assert(k == p);
        }
    }
}

proof fn lemma_candidate_backed(m: MachineView, readings: Seq<(int, int, u64)>, n: nat)
    requires
        m.candidate is None,
        n <= readings.len(),
    ensures
        candidate_backed(m, readings, n),
    decreases n,
{
    if n > 0 {
        let p = (n - 1) as nat;
        lemma_candidate_backed(m, readings, p);
        let prev = run(m, readings, p);
        let r = readings[p as int];
        let cur = run(m, readings, n);
        assert(cur == step(prev, r.0, r.1, r.2).0);
        if let Some((s, since)) = cur.candidate {
            let c = prev.current;
            assert(cur.current == c);
            assert(zone(r.0, r.1, c) == s);
            if prev.candidate == Some((s, since)) {
                let j = choose|j: nat|
                    #![trigger readings[j as int]]
                    j < p && readings[j as int].2 == since && pointed_steadily(
                        m,
                        readings,
                        j,
                        p,
                        c,
                        s,
                    );
                lemma_extend_steady(m, readings, j, p, c, s);
                assert(readings[j as int].2 == since);
            } else {
                assert(since == r.2);
                assert(pointed_steadily(m, readings, p, p, c, s));
                lemma_extend_steady(m, readings, p, p, c, s);
                assert(readings[p as int].2 == since);
            }
        }
    }
}

/// Debounce: starting from a machine with no pending candidate (as `new`
/// and `from_state` give), a transition is only ever reported after the
/// new state was pointed to by every reading from some earlier reading
/// `j` on (so by at least two readings), all taken while the previous
/// state was still confirmed, and the reporting reading came at least
/// `DEBOUNCE` after reading `j`.
pub proof fn lemma_transition_is_debounced(
    m: MachineView,
    readings: Seq<(int, int, u64)>,
    n: nat,
)
    requires
        m.candidate is None,
        0 < n <= readings.len(),
        step(
            run(m, readings, (n - 1) as nat),
            readings[n - 1].0,
            readings[n - 1].1,
            readings[n - 1].2,
        ).1 is Some,
    ensures
        ({
            let before = run(m, readings, (n - 1) as nat);
            let target = run(m, readings, n).current;
            &&& target != before.current
            &&& step(before, readings[n - 1].0, readings[n - 1].1, readings[n - 1].2).1 == Some(
                transition_to(target),
            )
            &&& exists|j: nat|
                #![trigger readings[j as int]]
                j + 1 < n && readings[n - 1].2 >= readings[j as int].2 + DEBOUNCE
                    && pointed_steadily(m, readings, j, n, before.current, target)
        }),
{
    let p = (n - 1) as nat;
    lemma_candidate_backed(m, readings, p);
    let before = run(m, readings, p);
    let r = readings[p as int];
    let c = before.current;
    let target = zone(r.0, r.1, c);
    let (s, since) = before.candidate.unwrap();
    assert(s == target);
    let j = choose|j: nat|
        #![trigger readings[j as int]]
        j < p && readings[j as int].2 == since && pointed_steadily(m, readings, j, p, c, s);
    assert(run(m, readings, n).current == target);
    lemma_extend_steady(m, readings, j, p, c, s);
    assert(readings[j as int].2 == since);
}

/// The one-shot classification agrees with a fresh machine: a machine
/// in Laptop with no candidate, fed the same reading twice at least
/// `DEBOUNCE` apart, ends in exactly the state `classify` reports.
pub proof fn lemma_classify_matches_fresh_machine(angle: int, tilt: int, t0: u64, t1: u64)
    requires
        t1 >= t0 + DEBOUNCE,
    ensures
        ({
            let fresh = MachineView { current: HingeState::Laptop, candidate: None };
            let m1 = step(fresh, angle, tilt, t0).0;
            step(m1, angle, tilt, t1).0.current == zone(angle, tilt, HingeState::Laptop)
        }),
{
    let fresh = MachineView { current: HingeState::Laptop, candidate: None };
    if zone(angle, tilt, HingeState::Laptop) != HingeState::Laptop {
        lemma_held_reading_confirms(fresh, angle, tilt, t0, t1);
    }
}

/// Zones exactly: from Laptop a reading points to Tablet when it is
/// below `TABLET_ENTER_LOW` with base tilt above `BASE_TILT_THRESHOLD`,
/// or above `TABLET_ENTER_HIGH`; from Tablet it points to Laptop when it
/// is strictly between `LAPTOP_ENTER_LOW` and `LAPTOP_ENTER_HIGH`, the
/// tilt ignored. A reading that moves the state to `s2` never moves it
/// back: seen from `s2` it points to `s2`.
pub proof fn lemma_zone_thresholds(angle: int, tilt: int, s: HingeState, s2: HingeState)
    ensures
        zone(angle, tilt, HingeState::Laptop) == HingeState::Tablet <==> (angle < TABLET_ENTER_LOW
            && tilt > BASE_TILT_THRESHOLD) || angle > TABLET_ENTER_HIGH,
        zone(angle, tilt, HingeState::Tablet) == HingeState::Laptop <==> LAPTOP_ENTER_LOW < angle
            < LAPTOP_ENTER_HIGH,
        zone(angle, tilt, s) == s2 ==> zone(angle, tilt, s2) == s2,
{
}

/// The transition reported by reading `k` (counted from 0).
pub open spec fn reported(m: MachineView, readings: Seq<(int, int, u64)>, k: nat) -> Option<
    Transition,
> {
    let r = readings[k as int];
    step(run(m, readings, k), r.0, r.1, r.2).1
}

/// The last transition reported by the first `n` readings, if any.
pub open spec fn last_reported(m: MachineView, readings: Seq<(int, int, u64)>, n: nat) -> Option<
    Transition,
>
    decreases n,
{
    if n == 0 {
        None
    } else {
        match reported(m, readings, (n - 1) as nat) {
            Some(t) => Some(t),
            None => last_reported(m, readings, (n - 1) as nat),
        }
    }
}

/// The state the last reported transition leads to, or the starting
/// state when none was reported.
pub open spec fn named_state(m: MachineView, last: Option<Transition>) -> HingeState {
    match last {
        Some(t) => transition_target(t),
        None => m.current,
    }
}

/// Over any sequence of readings, the confirmed state is the one named
/// by the last reported transition (the starting state if none was
/// reported), and every reported transition leaves the state named
/// before it, so the reported transitions alternate, starting with the
/// one leaving the starting state.
pub proof fn lemma_current_is_last_reported(
    m: MachineView,
    readings: Seq<(int, int, u64)>,
    n: nat,
)
    requires
        n <= readings.len(),
    ensures
        run(m, readings, n).current == named_state(m, last_reported(m, readings, n)),
        n < readings.len() ==> (reported(m, readings, n) matches Some(t) ==> transition_target(t)
            != named_state(m, last_reported(m, readings, n))),
    decreases n,
{
    if n > 0 {
        lemma_current_is_last_reported(m, readings, (n - 1) as nat);
    }
}

/// Reading `i` finds the machine confirmed in `cur` and points away
/// from it.
pub open spec fn points_away(
    m: MachineView,
    readings: Seq<(int, int, u64)>,
    i: nat,
    cur: HingeState,
) -> bool {
    run(m, readings, i).current == cur && zone(readings[i as int].0, readings[i as int].1, cur)
        != cur
}

/// Readings `j` through `k` form an unbroken run pointing away from the
/// state confirmed at `j`, and reading `j` starts it (it is the first
/// reading or the one before it does not point away from that state).
pub open spec fn run_from(m: MachineView, readings: Seq<(int, int, u64)>, j: nat, k: nat) -> bool {
    let cur = run(m, readings, j).current;
    &&& j <= k < readings.len()
    &&& forall|i: nat| #![trigger run(m, readings, i)] j <= i <= k ==> points_away(m, readings, i, cur)
    &&& j == 0 || !points_away(m, readings, (j - 1) as nat, cur)
}

proof fn lemma_run_candidate(m: MachineView, readings: Seq<(int, int, u64)>, j: nat, k: nat)
    requires
        m.candidate is None,
        run_from(m, readings, j, k),
    ensures
        run(m, readings, k).candidate == if k == j {
            None
        } else {
            Some(
                (
                    zone(readings[j as int].0, readings[j as int].1, run(m, readings, j).current),
                    readings[j as int].2,
                ),
            )
        },
    decreases k - j,
{
    let cur = run(m, readings, j).current;
    if k == j {
        if j > 0 {
            let p = (j - 1) as nat;
            let r = readings[p as int];
            assert(run(m, readings, j) == step(run(m, readings, p), r.0, r.1, r.2).0);
        }
    } else {
        let p = (k - 1) as nat;
        assert(points_away(m, readings, p, cur));
        assert(points_away(m, readings, k, cur));
        assert(run_from(m, readings, j, p));
        lemma_run_candidate(m, readings, j, p);
        let r = readings[p as int];
        assert(run(m, readings, k) == step(run(m, readings, p), r.0, r.1, r.2).0);
        assert(points_away(m, readings, j, cur));
    }
}

/// The debounce over a run of calls, both ways. A reading in the
/// confirmed state's own zone reports nothing, keeps the state and drops
/// any candidate. A reading pointing away, ending an unbroken run of
/// readings that point away from the same confirmed state and start at
/// reading `j` (from a machine with no candidate, as `new` and
/// `from_state` give), reports the transition to its zone and moves
/// there exactly when it comes at least `DEBOUNCE` after reading `j`;
/// otherwise it reports nothing and the state stays.
pub proof fn lemma_update_over_run(m: MachineView, readings: Seq<(int, int, u64)>, j: nat, k: nat)
    requires
        m.candidate is None,
        k < readings.len(),
        j <= k,
    ensures
        ({
            let cur = run(m, readings, k).current;
            let z = zone(readings[k as int].0, readings[k as int].1, cur);
            z == cur ==> reported(m, readings, k) is None && run(m, readings, k + 1) == (MachineView {
                current: cur,
                candidate: None,
            })
        }),
        run_from(m, readings, j, k) ==> ({
            let cur = run(m, readings, j).current;
            let z = zone(readings[k as int].0, readings[k as int].1, cur);
            let confirmed = elapsed(readings[j as int].2, readings[k as int].2) >= DEBOUNCE;
            &&& reported(m, readings, k) == (if confirmed {
                Some(transition_to(z))
            } else {
                None
            })
            &&& run(m, readings, k + 1).current == (if confirmed {
                z
            } else {
                cur
            })
        }),
{
    let r = readings[k as int];
    assert(run(m, readings, k + 1) == step(run(m, readings, k), r.0, r.1, r.2).0);
    if run_from(m, readings, j, k) {
        lemma_run_candidate(m, readings, j, k);
        let cur = run(m, readings, j).current;
        assert(points_away(m, readings, k, cur));
        assert(points_away(m, readings, j, cur));
    }
}

} // verus!
