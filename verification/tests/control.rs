use minibookd::control::{
    apply_outcome, apply_steps, choose_tick_angle, plan_reconcile, plan_transition,
    reconcile_target, revert_steps, signal_exit_code, HardwareStep, TickAngle, TransitionPlan,
};
use minibookd::state::{HingeState, Transition};

#[test]
fn tablet_steps_set_switch_then_ltsm() {
    assert_eq!(
        apply_steps(HingeState::Tablet),
        vec![HardwareStep::SetSwitch(true), HardwareStep::SetTabletMode(true)]
    );
}

#[test]
fn laptop_steps_revert_ltsm_first() {
    assert_eq!(
        apply_steps(HingeState::Laptop),
        vec![
            HardwareStep::SetTabletMode(false),
            HardwareStep::SetSwitch(false),
            HardwareStep::ResetRotation
        ]
    );
    assert_eq!(
        revert_steps(),
        vec![HardwareStep::SetTabletMode(false), HardwareStep::SetSwitch(false)]
    );
}

#[test]
fn transition_plans() {
    assert_eq!(
        plan_transition(Transition::ToTablet, true),
        TransitionPlan::Report(HingeState::Tablet)
    );
    assert_eq!(
        plan_transition(Transition::ToLaptop, false),
        TransitionPlan::Apply { target: HingeState::Laptop, exit_on_failure: true }
    );
    assert_eq!(
        plan_transition(Transition::ToTablet, false),
        TransitionPlan::Apply { target: HingeState::Tablet, exit_on_failure: false }
    );
    assert_eq!(plan_reconcile(HingeState::Laptop, true), TransitionPlan::Report(HingeState::Laptop));
    assert_eq!(
        plan_reconcile(HingeState::Laptop, false),
        TransitionPlan::Apply { target: HingeState::Laptop, exit_on_failure: false }
    );
    assert_eq!(signal_exit_code(true), 0);
    assert_eq!(signal_exit_code(false), 1);
}

#[test]
fn reconcile_defaults_to_laptop_without_a_reading() {
    assert_eq!(reconcile_target(None), HingeState::Laptop);
    assert_eq!(reconcile_target(Some((155_000, 0))), HingeState::Tablet);
    assert_eq!(reconcile_target(Some((27_000, 20_000))), HingeState::Laptop);
}

#[test]
fn tick_angle_holds_during_jerks() {
    assert_eq!(
        choose_tick_angle(false, Some(1), Some(2)),
        TickAngle::Use { angle: 2, held: Some(2) }
    );
    assert_eq!(choose_tick_angle(false, Some(1), None), TickAngle::Skip);
    assert_eq!(
        choose_tick_angle(true, Some(1), Some(2)),
        TickAngle::Use { angle: 1, held: Some(1) }
    );
    assert_eq!(
        choose_tick_angle(true, None, Some(2)),
        TickAngle::Use { angle: 2, held: None }
    );
    assert_eq!(
        choose_tick_angle(true, None, None),
        TickAngle::Use { angle: 0, held: None }
    );
}

#[test]
fn apply_outcome_is_the_ltsm_result_alone() {
    let laptop = apply_steps(HingeState::Laptop);
    assert!(apply_outcome(&laptop, &vec![true, false, false]));
    assert!(!apply_outcome(&laptop, &vec![false, true, true]));
    let tablet = apply_steps(HingeState::Tablet);
    assert!(apply_outcome(&tablet, &vec![false, true]));
    assert!(!apply_outcome(&tablet, &vec![true, false]));
    let revert = revert_steps();
    assert!(apply_outcome(&revert, &vec![true, false]));
    assert!(!apply_outcome(&revert, &vec![false, true]));
}
