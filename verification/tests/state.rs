use minibookd::state::{HingeState, StateMachine, Transition, DEBOUNCE};
use std::time::Duration;

/// Degrees as the machine takes them: millidegrees.
fn deg(x: f64) -> i32 {
    (x * 1000.0).round() as i32
}

fn after(t0: u64, d: Duration) -> u64 {
    t0 + d.as_nanos() as u64
}

const T0: u64 = 5_000_000_000;

#[test]
fn starts_in_laptop_state() {
    let sm = StateMachine::new();
    assert_eq!(sm.current(), HingeState::Laptop);
}

#[test]
fn classify_reports_laptop_for_a_clear_laptop_angle() {
    assert_eq!(StateMachine::classify(deg(70.0), deg(0.0)), HingeState::Laptop);
}

#[test]
fn classify_reports_tablet_for_a_clear_low_side_fold_with_tilt() {
    assert_eq!(StateMachine::classify(deg(10.0), deg(20.0)), HingeState::Tablet);
}

#[test]
fn classify_reports_laptop_for_a_low_side_fold_without_sufficient_tilt() {
    assert_eq!(StateMachine::classify(deg(-39.9), deg(0.75)), HingeState::Laptop);
}

#[test]
fn classify_reports_tablet_for_a_clear_high_side_fold() {
    assert_eq!(StateMachine::classify(deg(155.0), deg(0.0)), HingeState::Tablet);
}

#[test]
fn classify_resolves_dead_bands_as_laptop() {
    assert_eq!(StateMachine::classify(deg(27.0), deg(20.0)), HingeState::Laptop);
    assert_eq!(StateMachine::classify(deg(142.0), deg(0.0)), HingeState::Laptop);
}

#[test]
fn from_state_seeds_current_without_requiring_debounce() {
    let mut sm = StateMachine::from_state(HingeState::Tablet);
    assert_eq!(sm.current(), HingeState::Tablet);
    let t0 = T0;
    assert_eq!(sm.update(deg(155.0), deg(0.0), t0), None);
    assert_eq!(sm.current(), HingeState::Tablet);
}

#[test]
fn no_transition_while_reading_stays_in_laptop_zone() {
    let mut sm = StateMachine::new();
    let t0 = T0;
    assert_eq!(sm.update(deg(70.0), deg(0.0), t0), None);
    assert_eq!(sm.current(), HingeState::Laptop);
}

#[test]
fn folding_past_low_threshold_with_sufficient_tilt_and_holding_debounce_confirms_tablet() {
    let mut sm = StateMachine::new();
    let t0 = T0;
    assert_eq!(sm.update(deg(10.0), deg(20.0), t0), None);
    assert_eq!(sm.current(), HingeState::Laptop);
    assert_eq!(
        sm.update(deg(10.0), deg(20.0), after(t0, Duration::from_millis(500))),
        None
    );
    assert_eq!(sm.current(), HingeState::Laptop);
    let result = sm.update(deg(10.0), deg(20.0), after(t0, Duration::from_millis(800)));
    assert_eq!(result, Some(Transition::ToTablet));
    assert_eq!(sm.current(), HingeState::Tablet);
}

#[test]
fn almost_closed_lid_resting_normally_does_not_confirm_tablet() {
    let mut sm = StateMachine::new();
    let t0 = T0;
    assert_eq!(sm.update(deg(-39.9), deg(0.75), t0), None);
    assert_eq!(sm.current(), HingeState::Laptop);
    assert_eq!(
        sm.update(deg(-39.9), deg(0.75), after(t0, Duration::from_millis(800))),
        None
    );
    assert_eq!(sm.current(), HingeState::Laptop);
    assert_eq!(
        sm.update(deg(-39.9), deg(0.75), after(t0, Duration::from_secs(10))),
        None
    );
    assert_eq!(sm.current(), HingeState::Laptop);
}

#[test]
fn folding_past_high_threshold_and_holding_debounce_confirms_tablet() {
    let mut sm = StateMachine::new();
    let t0 = T0;
    assert_eq!(sm.update(deg(155.0), deg(0.0), t0), None);
    assert_eq!(sm.current(), HingeState::Laptop);
    assert_eq!(
        sm.update(deg(155.0), deg(0.0), after(t0, Duration::from_millis(500))),
        None
    );
    assert_eq!(sm.current(), HingeState::Laptop);
    let result = sm.update(deg(155.0), deg(0.0), after(t0, Duration::from_millis(800)));
    assert_eq!(result, Some(Transition::ToTablet));
    assert_eq!(sm.current(), HingeState::Tablet);
}

#[test]
fn brief_dip_into_tablet_zone_that_reverts_before_debounce_has_no_effect() {
    let mut sm = StateMachine::new();
    let t0 = T0;
    assert_eq!(sm.update(deg(10.0), deg(20.0), t0), None);
    assert_eq!(
        sm.update(deg(70.0), deg(20.0), after(t0, Duration::from_millis(300))),
        None
    );
    assert_eq!(sm.current(), HingeState::Laptop);
    assert_eq!(
        sm.update(deg(70.0), deg(20.0), after(t0, Duration::from_millis(900))),
        None
    );
    assert_eq!(sm.current(), HingeState::Laptop);
}

#[test]
fn folding_back_open_confirms_laptop_after_debounce() {
    let mut sm = StateMachine::new();
    let t0 = T0;
    sm.update(deg(10.0), deg(20.0), t0);
    sm.update(deg(10.0), deg(20.0), after(t0, Duration::from_millis(800)));
    assert_eq!(
        sm.update(deg(70.0), deg(20.0), after(t0, Duration::from_millis(900))),
        None
    );
    let result = sm.update(deg(70.0), deg(20.0), after(t0, Duration::from_millis(1700)));
    assert_eq!(result, Some(Transition::ToLaptop));
    assert_eq!(sm.current(), HingeState::Laptop);
}

#[test]
fn low_side_dead_band_does_not_flip_from_laptop() {
    let mut sm = StateMachine::new();
    let t0 = T0;
    assert_eq!(sm.update(deg(27.0), deg(20.0), t0), None);
    assert_eq!(
        sm.update(deg(27.0), deg(20.0), after(t0, Duration::from_millis(800))),
        None
    );
    assert_eq!(sm.current(), HingeState::Laptop);
}

#[test]
fn high_side_dead_band_does_not_flip_from_laptop() {
    let mut sm = StateMachine::new();
    let t0 = T0;
    assert_eq!(sm.update(deg(142.0), deg(0.0), t0), None);
    assert_eq!(
        sm.update(deg(142.0), deg(0.0), after(t0, Duration::from_millis(800))),
        None
    );
    assert_eq!(sm.current(), HingeState::Laptop);
}

const EXPECT_LAPTOP: [(f64, f64); 14] = [
    (57.98, 0.48),
    (110.43, 0.74),
    (84.60, 0.38),
    (51.75, 39.23),
    (65.17, 14.62),
    (45.10, 20.47),
    (46.36, 3.87),
    (53.44, 49.60),
    (67.28, 3.49),
    (69.87, 26.13),
    (56.79, 45.48),
    (50.01, 11.01),
    (45.82, 34.09),
    (53.11, 55.94),
];

const EXPECT_TABLET: [(f64, f64); 4] = [
    (-70.42, 179.65),
    (149.02, 18.36),
    (-124.31, 62.55),
    (-144.14, 178.84),
];

#[test]
fn real_readings_classify_correctly() {
    for (angle, tilt) in EXPECT_LAPTOP {
        let mut sm = StateMachine::new();
        let t0 = T0;
        sm.update(deg(angle), deg(tilt), t0);
        sm.update(deg(angle), deg(tilt), t0 + DEBOUNCE + 50_000_000);
        assert_eq!(
            sm.current(),
            HingeState::Laptop,
            "angle {angle} (tilt {tilt}) should classify as Laptop"
        );
    }

    for (angle, tilt) in EXPECT_TABLET {
        let mut sm = StateMachine::new();
        let t0 = T0;
        sm.update(deg(angle), deg(tilt), t0);
        sm.update(deg(angle), deg(tilt), t0 + DEBOUNCE + 50_000_000);
        assert_eq!(
            sm.current(),
            HingeState::Tablet,
            "angle {angle} (tilt {tilt}) should classify as Tablet"
        );
    }
}

#[test]
fn classify_matches_real_readings() {
    for (angle, tilt) in EXPECT_LAPTOP {
        assert_eq!(
            StateMachine::classify(deg(angle), deg(tilt)),
            HingeState::Laptop,
            "angle {angle} (tilt {tilt}) should classify as Laptop"
        );
    }
    for (angle, tilt) in EXPECT_TABLET {
        assert_eq!(
            StateMachine::classify(deg(angle), deg(tilt)),
            HingeState::Tablet,
            "angle {angle} (tilt {tilt}) should classify as Tablet"
        );
    }
}

#[test]
fn thresholds_are_strict_comparisons() {
    // Exactly on a threshold is inside the dead band.
    assert_eq!(StateMachine::classify(deg(20.0), deg(30.0)), HingeState::Laptop);
    assert_eq!(StateMachine::classify(deg(19.999), deg(30.0)), HingeState::Tablet);
    assert_eq!(StateMachine::classify(deg(10.0), deg(8.0)), HingeState::Laptop);
    assert_eq!(StateMachine::classify(deg(10.0), deg(8.001)), HingeState::Tablet);
    assert_eq!(StateMachine::classify(deg(146.0), deg(0.0)), HingeState::Laptop);
    let mut sm = StateMachine::from_state(HingeState::Tablet);
    assert_eq!(sm.update(deg(35.0), 0, T0), None);
    assert_eq!(sm.update(deg(35.0), 0, T0 + DEBOUNCE), None);
    assert_eq!(sm.update(deg(138.0), 0, T0 + 2 * DEBOUNCE), None);
    assert_eq!(sm.current(), HingeState::Tablet);
}

#[test]
fn debounce_is_inclusive_and_restarts_on_revert() {
    let mut sm = StateMachine::new();
    assert_eq!(sm.update(deg(155.0), 0, T0), None);
    assert_eq!(sm.update(deg(155.0), 0, T0 + DEBOUNCE - 1), None);
    assert_eq!(sm.update(deg(155.0), 0, T0 + DEBOUNCE), Some(Transition::ToTablet));
    // Back in the Laptop zone: a new candidate, timed from its own start.
    assert_eq!(sm.update(deg(60.0), 0, T0 + 10 * DEBOUNCE), None);
    assert_eq!(sm.update(deg(60.0), 0, T0 + 11 * DEBOUNCE - 1), None);
    assert_eq!(sm.current(), HingeState::Tablet);
    assert_eq!(sm.update(deg(60.0), 0, T0 + 11 * DEBOUNCE), Some(Transition::ToLaptop));
}

#[test]
fn a_clock_going_backwards_never_confirms() {
    let mut sm = StateMachine::new();
    assert_eq!(sm.update(deg(155.0), 0, T0), None);
    assert_eq!(sm.update(deg(155.0), 0, 0), None);
    assert_eq!(sm.current(), HingeState::Laptop);
}
