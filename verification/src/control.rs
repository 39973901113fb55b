//! The tablet-mode daemon's decisions around the hardware: what to write
//! for a state, what to do on a confirmed transition, which state to
//! reconcile to, and which angle a poll tick feeds the state machine.
//! The caller performs the hardware writes and reports back.

use vstd::prelude::*;
use crate::state::{HingeState, Transition, transition_target, zone, StateMachine};

verus! {

/// One hardware write.
#[derive(Debug, Clone, Copy, PartialEq, Eq, Structural)]
pub enum HardwareStep {
    /// Set the `SW_TABLET_MODE` switch on the virtual input device.
    SetSwitch(bool),
    /// Call the firmware's `LTSM` method: 1 disables keyboard and
    /// touchpad, 0 re-enables them.
    SetTabletMode(bool),
    /// Force the display rotation back to normal (best effort).
    ResetRotation,
}

/// The writes that put hardware in `target`, in order. Tablet: switch on,
/// then `LTSM(1)`. Laptop: `LTSM(0)` first (the safety-critical revert),
/// then switch off, then the rotation reset.
pub open spec fn steps_for(target: HingeState) -> Seq<HardwareStep> {
    match target {
        HingeState::Tablet => seq![HardwareStep::SetSwitch(true), HardwareStep::SetTabletMode(true)],
        HingeState::Laptop => seq![
            HardwareStep::SetTabletMode(false),
            HardwareStep::SetSwitch(false),
            HardwareStep::ResetRotation,
        ],
    }
}

/// The writes for `target`. Only the `SetTabletMode` write decides
/// whether applying succeeded; failures of the others are only logged.
pub fn apply_steps(target: HingeState) -> (steps: Vec<HardwareStep>)
    ensures
        steps@ == steps_for(target),
{
    let mut steps: Vec<HardwareStep> = Vec::new();
    match target {
        HingeState::Tablet => {
            steps.push(HardwareStep::SetSwitch(true));
            steps.push(HardwareStep::SetTabletMode(true));
        },
        HingeState::Laptop => {
            steps.push(HardwareStep::SetTabletMode(false));
            steps.push(HardwareStep::SetSwitch(false));
            steps.push(HardwareStep::ResetRotation);
        },
    }
    assert(steps@ =~= steps_for(target));
    steps
}

/// The emergency revert used on a stalled poll loop and on a termination
/// signal: `LTSM(0)`, then the switch off, so the desktop sees an
/// explicit "leaving tablet mode" before the device disappears.
pub open spec fn revert_step_list() -> Seq<HardwareStep> {
    seq![HardwareStep::SetTabletMode(false), HardwareStep::SetSwitch(false)]
}

/// The writes of the emergency revert.
pub fn revert_steps() -> (steps: Vec<HardwareStep>)
    ensures
        steps@ == revert_step_list(),
{
    let mut steps: Vec<HardwareStep> = Vec::new();
    steps.push(HardwareStep::SetTabletMode(false));
    steps.push(HardwareStep::SetSwitch(false));
    assert(steps@ =~= revert_step_list());
    steps
}

/// Exit status after a termination signal's revert: success exactly when
/// `LTSM(0)` succeeded.
pub fn signal_exit_code(tablet_mode_cleared: bool) -> (code: i32)
    ensures
        code == (if tablet_mode_cleared {
            0i32
        } else {
            1i32
        }),
{
    if tablet_mode_cleared {
        0
    } else {
        1
    }
}

/// The state a transition leads to.
pub fn target_of(t: Transition) -> (s: HingeState)
    ensures
        s == transition_target(t),
{
    match t {
        Transition::ToTablet => HingeState::Tablet,
        Transition::ToLaptop => HingeState::Laptop,
    }
}

/// What to do with a state to be written to hardware.
#[derive(Debug, Clone, Copy, PartialEq, Eq, Structural)]
pub enum TransitionPlan {
    /// Dry run: only report the state; no hardware is written.
    Report(HingeState),
    /// Write the state's hardware steps; when `exit_on_failure`, a failed
    /// apply ends the process, otherwise it is only logged.
    Apply { target: HingeState, exit_on_failure: bool },
}

/// The plan for a confirmed transition of the live poll loop: report
/// only in a dry run, otherwise apply the target state. Only a failed
/// `LTSM(0)` on the way to Laptop ends the process, so that the service
/// manager's stop hook retries the revert; a failed Tablet entry is only
/// logged.
pub fn plan_transition(t: Transition, dry_run: bool) -> (p: TransitionPlan)
    ensures
        p == (if dry_run {
            TransitionPlan::Report(transition_target(t))
        } else {
            TransitionPlan::Apply {
                target: transition_target(t),
                exit_on_failure: transition_target(t) == HingeState::Laptop,
            }
        }),
{
    let target = target_of(t);
    if dry_run {
        TransitionPlan::Report(target)
    } else {
        let exit_on_failure = match target {
            HingeState::Laptop => true,
            HingeState::Tablet => false,
        };
        TransitionPlan::Apply { target, exit_on_failure }
    }
}

/// The plan for reconciling hardware to `target` at startup or after
/// resume: report only in a dry run, otherwise apply it, best effort: a
/// failed apply is only logged, never fatal, so a transient failure
/// neither crash-loops the daemon before its poll loop starts nor kills
/// it after a resume.
pub fn plan_reconcile(target: HingeState, dry_run: bool) -> (p: TransitionPlan)
    ensures
        p == (if dry_run {
            TransitionPlan::Report(target)
        } else {
            TransitionPlan::Apply { target, exit_on_failure: false }
        }),
{
    if dry_run {
        TransitionPlan::Report(target)
    } else {
        TransitionPlan::Apply { target, exit_on_failure: false }
    }
}

/// Applying writes succeeded when every `LTSM` call among them did:
/// the outcomes of the switch and rotation writes never count.
pub open spec fn writes_succeeded(steps: Seq<HardwareStep>, ok: Seq<bool>) -> bool {
    forall|i: int| 0 <= i < steps.len() && steps[i] is SetTabletMode ==> ok[i]
}

/// The outcome of applying `steps`, given whether each write succeeded
/// (`ok[i]` for `steps[i]`; every write is attempted whatever the earlier
/// ones returned): success exactly when the `LTSM` calls succeeded.
pub fn apply_outcome(steps: &Vec<HardwareStep>, ok: &Vec<bool>) -> (r: bool)
    requires
        steps@.len() == ok@.len(),
    ensures
        r == writes_succeeded(steps@, ok@),
{
    let mut i: usize = 0;
    while i < steps.len()
        invariant
            i <= steps@.len() == ok@.len(),
            forall|k: int| 0 <= k < i && steps@[k] is SetTabletMode ==> ok@[k],
        decreases steps@.len() - i,
    {
        if let HardwareStep::SetTabletMode(_) = steps[i] {
            if !ok[i] {
                return false;
            }
        }
        i = i + 1;
    }
    true
}

/// `steps` makes exactly one `LTSM` call, at position `i`.
pub open spec fn single_tablet_mode_write(steps: Seq<HardwareStep>, i: int) -> bool {
    &&& 0 <= i < steps.len()
    &&& steps[i] is SetTabletMode
    &&& forall|j: int| 0 <= j < steps.len() && j != i ==> !(steps[j] is SetTabletMode)
}

/// Each state's writes and the emergency revert make exactly one `LTSM`
/// call (second for Tablet, first for Laptop and for the revert), so the
/// result of applying them is that call's result alone, whatever the
/// switch and rotation writes return.
pub proof fn lemma_outcome_is_the_ltsm_call(target: HingeState, ok: Seq<bool>)
    ensures
        single_tablet_mode_write(
            steps_for(target),
            if target == HingeState::Tablet {
                1int
            } else {
                0int
            },
        ),
        single_tablet_mode_write(revert_step_list(), 0),
        ok.len() == steps_for(target).len() ==> writes_succeeded(steps_for(target), ok) == ok[if target
            == HingeState::Tablet {
            1int
        } else {
            0int
        }],
        ok.len() == revert_step_list().len() ==> writes_succeeded(revert_step_list(), ok)
            == ok[0],
{
}

/// The state to reconcile hardware to at startup or after resume, given
/// the current reading as `(angle, tilt)` in millidegrees, or `None` when
/// either accelerometer could not be read or the angle is degenerate:
/// the one-shot classification of the reading, and Laptop (the fail-safe
/// direction) without one.
pub fn reconcile_target(reading: Option<(i32, i32)>) -> (s: HingeState)
    ensures
        s == match reading {
            Some((angle, tilt)) => zone(angle as int, tilt as int, HingeState::Laptop),
            None => HingeState::Laptop,
        },
{
    match reading {
        Some((angle, tilt)) => StateMachine::classify(angle, tilt),
        None => HingeState::Laptop,
    }
}

/// The angle one poll tick uses, and the angle held for later ticks.
#[derive(Debug, Clone, Copy, PartialEq, Eq, Structural)]
pub enum TickAngle {
    /// Feed `angle` to the state machine; hold `held` from now on.
    Use { angle: i32, held: Option<i32> },
    /// The fresh angle is degenerate and nothing may stand in for it:
    /// skip this tick (without a heartbeat).
    Skip,
}

/// Picks the tick's angle. During a jerk (a sudden change of either
/// accelerometer's magnitude) the last held angle stands in for the fresh
/// one, or the fresh one when none is held yet, or 0 when that is
/// degenerate too; the held angle is kept. Otherwise a fresh angle is
/// used and held, and a degenerate one skips the tick.
pub fn choose_tick_angle(jerked: bool, held: Option<i32>, fresh: Option<i32>) -> (t: TickAngle)
    ensures
        t == (if jerked {
            TickAngle::Use {
                angle: match held {
                    Some(h) => h,
                    None => match fresh {
                        Some(f) => f,
                        None => 0,
                    },
                },
                held,
            }
        } else {
            match fresh {
                Some(f) => TickAngle::Use { angle: f, held: Some(f) },
                None => TickAngle::Skip,
            }
        }),
{
    if jerked {
        let angle = match held {
            Some(h) => h,
            None => match fresh {
                Some(f) => f,
                None => 0,
            },
        };
        TickAngle::Use { angle, held }
    } else {
        match fresh {
            Some(f) => TickAngle::Use { angle: f, held: Some(f) },
            None => TickAngle::Skip,
        }
    }
}

/// The last value each of the switch and the `LTSM` call are set to by a
/// list of writes.
pub open spec fn last_switch(steps: Seq<HardwareStep>) -> Option<bool>
    decreases steps.len(),
{
    if steps.len() == 0 {
        None
    } else if let HardwareStep::SetSwitch(b) = steps.last() {
        Some(b)
    } else {
        last_switch(steps.drop_last())
    }
}

pub open spec fn last_tablet_mode(steps: Seq<HardwareStep>) -> Option<bool>
    decreases steps.len(),
{
    if steps.len() == 0 {
        None
    } else if let HardwareStep::SetTabletMode(b) = steps.last() {
        Some(b)
    } else {
        last_tablet_mode(steps.drop_last())
    }
}

/// Applying a state leaves both the switch and the `LTSM` call agreeing
/// with it (on exactly for Tablet), and the emergency revert leaves both
/// off: no exit path leaves the keyboard disabled or the switch on.
pub proof fn lemma_steps_agree(target: HingeState)
    ensures
        last_switch(steps_for(target)) == Some(target == HingeState::Tablet),
        last_tablet_mode(steps_for(target)) == Some(target == HingeState::Tablet),
        last_switch(revert_step_list()) == Some(false),
        last_tablet_mode(revert_step_list()) == Some(false),
{
    reveal_with_fuel(last_switch, 4);
    reveal_with_fuel(last_tablet_mode, 4);
    assert(steps_for(HingeState::Tablet).drop_last() =~= seq![HardwareStep::SetSwitch(true)]);
    assert(steps_for(HingeState::Laptop).drop_last() =~= seq![
        HardwareStep::SetTabletMode(false),
        HardwareStep::SetSwitch(false),
    ]);
    assert(steps_for(HingeState::Laptop).drop_last().drop_last() =~= seq![
        HardwareStep::SetTabletMode(false),
    ]);
    assert(revert_step_list().drop_last() =~= seq![HardwareStep::SetTabletMode(false)]);
}

} // verus!
