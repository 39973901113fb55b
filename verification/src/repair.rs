//! Repairing DSI panel corruption by toggling Mutter's `PowerSaveMode`
//! off and back on, retried a bounded number of times.

use vstd::prelude::*;
use crate::cli::arg_views;
use crate::numeric::{decimal, format_decimal};

verus! {

/// The user the toggle runs as (the process itself runs as root, which
/// the session bus rejects).
pub const TARGET_USER: &'static str = "pxgray";

/// The session bus of that user.
pub const SESSION_BUS_ADDRESS: &'static str = "unix:path=/run/user/1000/bus";

/// `PowerSaveMode` value that turns the display off (DPMS-style).
pub const POWER_SAVE_OFF: i32 = 3;

/// `PowerSaveMode` value that turns the display on.
pub const POWER_SAVE_ON: i32 = 0;

/// How many toggles are tried for one detected failure before giving up.
pub const MAX_REPAIR_ATTEMPTS: u32 = 5;

/// How long to wait after a toggle for a fresh failure: 2 seconds, in
/// nanoseconds.
pub const REPAIR_SETTLE: u64 = 2_000_000_000;

/// The `busctl` arguments (everything after `busctl`) that set
/// `PowerSaveMode` to `state`.
pub open spec fn power_save_arg_list(state: int) -> Seq<Seq<char>> {
    seq![
        "--address"@,
        SESSION_BUS_ADDRESS@,
        "call"@,
        "org.gnome.Mutter.DisplayConfig"@,
        "/org/gnome/Mutter/DisplayConfig"@,
        "org.freedesktop.DBus.Properties"@,
        "Set"@,
        "ssv"@,
        "org.gnome.Mutter.DisplayConfig"@,
        "PowerSaveMode"@,
        "i"@,
        decimal(state),
    ]
}

/// Builds the `busctl` arguments that set `PowerSaveMode` to `state`,
/// the value written in decimal.
pub fn power_save_toggle_args(state: i32) -> (r: Vec<String>)
    ensures
        arg_views(r@) == power_save_arg_list(state as int),
{
    let mut r: Vec<String> = Vec::new();
    r.push(String::from_str("--address"));
    r.push(String::from_str(SESSION_BUS_ADDRESS));
    r.push(String::from_str("call"));
    r.push(String::from_str("org.gnome.Mutter.DisplayConfig"));
    r.push(String::from_str("/org/gnome/Mutter/DisplayConfig"));
    r.push(String::from_str("org.freedesktop.DBus.Properties"));
    r.push(String::from_str("Set"));
    r.push(String::from_str("ssv"));
    r.push(String::from_str("org.gnome.Mutter.DisplayConfig"));
    r.push(String::from_str("PowerSaveMode"));
    r.push(String::from_str("i"));
    r.push(format_decimal(state));
    assert(arg_views(r@) =~= power_save_arg_list(state as int));
    r
}

/// How handling one detected failure ended.
#[derive(Debug, Clone, Copy, PartialEq, Eq, Structural)]
pub enum RepairOutcome {
    /// Repair is not active: detected and logged only.
    DryRun,
    /// No fresh failure followed the last toggle.
    Cleared { attempts: u32 },
    /// Every toggle was followed by a fresh failure.
    GaveUp { attempts: u32 },
}

/// What to do next while handling a failure.
#[derive(Debug, Clone, Copy, PartialEq, Eq, Structural)]
pub enum RepairAction {
    /// Set `PowerSaveMode` off then on, then wait `REPAIR_SETTLE` for a
    /// fresh failure and report whether one came.
    Toggle,
    /// Stop handling this failure.
    Finish(RepairOutcome),
}

/// The repair of one detected failure: how many toggles have been
/// started so far.
pub struct Repair {
    attempts: u32,
}

impl View for Repair {
    type V = nat;

    closed spec fn view(&self) -> nat {
        self.attempts as nat
    }
}

/// The action after a toggle's wait, with `attempts` toggles done:
/// cleared when no fresh failure came, given up after
/// `MAX_REPAIR_ATTEMPTS`, otherwise another toggle.
pub open spec fn next_action(attempts: nat, recurred: bool) -> RepairAction {
    if !recurred {
        RepairAction::Finish(RepairOutcome::Cleared { attempts: attempts as u32 })
    } else if attempts >= MAX_REPAIR_ATTEMPTS {
        RepairAction::Finish(RepairOutcome::GaveUp { attempts: attempts as u32 })
    } else {
        RepairAction::Toggle
    }
}

impl Repair {
    #[verifier::type_invariant]
    spec fn attempts_bounded(&self) -> bool {
        1 <= self.attempts <= MAX_REPAIR_ATTEMPTS
    }

    /// Starts handling a detected failure: nothing but a dry-run report
    /// when repair is not `active`, otherwise the first toggle.
    pub fn start(active: bool) -> (r: (Option<Repair>, RepairAction))
        ensures
            !active ==> r.0 is None && r.1 == RepairAction::Finish(RepairOutcome::DryRun),
            active ==> (r.0 matches Some(rep) && rep@ == 1 && r.1 == RepairAction::Toggle),
    {
        if !active {
            (None, RepairAction::Finish(RepairOutcome::DryRun))
        } else {
            (Some(Repair { attempts: 1 }), RepairAction::Toggle)
        }
    }

    /// Toggles started so far.
    pub fn attempts(&self) -> (n: u32)
        ensures
            n == self@,
            1 <= n <= MAX_REPAIR_ATTEMPTS,
    {
        proof {
            use_type_invariant(self);
        }
        self.attempts
    }

    /// Takes the result of the last toggle's wait: whether a fresh
    /// failure was seen.
    pub fn after_wait(&mut self, recurred: bool) -> (a: RepairAction)
        ensures
            a == next_action(old(self)@, recurred),
            a == RepairAction::Toggle ==> final(self)@ == old(self)@ + 1,
            a != RepairAction::Toggle ==> final(self)@ == old(self)@,
            1 <= final(self)@ <= MAX_REPAIR_ATTEMPTS,
    {
        proof {
            use_type_invariant(&*self);
        }
        if !recurred {
            RepairAction::Finish(RepairOutcome::Cleared { attempts: self.attempts })
        } else if self.attempts >= MAX_REPAIR_ATTEMPTS {
            RepairAction::Finish(RepairOutcome::GaveUp { attempts: self.attempts })
        } else {
            self.attempts = self.attempts + 1;
            RepairAction::Toggle
        }
    }
}

/// The outcome of handling one failure when the wait after toggle `n`
/// (counted from 1) reports `waits[n - 1]`, starting from `attempts`
/// toggles done: each step is `next_action`.
pub open spec fn drive(attempts: nat, waits: Seq<bool>) -> RepairOutcome
    decreases MAX_REPAIR_ATTEMPTS - attempts,
{
    match next_action(attempts, waits[attempts - 1]) {
        RepairAction::Finish(o) => o,
        RepairAction::Toggle => if attempts < MAX_REPAIR_ATTEMPTS {
            drive(attempts + 1, waits)
        } else {
            RepairOutcome::GaveUp { attempts: attempts as u32 }
        },
    }
}

/// Bounded retries: an active repair toggles at most
/// `MAX_REPAIR_ATTEMPTS` times. It reports `Cleared` after the first
/// toggle not followed by a fresh failure, counting the toggles up to and
/// including it, and `GaveUp` after `MAX_REPAIR_ATTEMPTS` toggles each
/// followed by a fresh failure.
pub proof fn lemma_repair_is_bounded(waits: Seq<bool>)
    requires
        waits.len() >= MAX_REPAIR_ATTEMPTS,
    ensures
        forall|k: int|
            #![trigger waits[k]]
            0 <= k < MAX_REPAIR_ATTEMPTS && !waits[k] && (forall|j: int| 0 <= j < k ==> waits[j])
                ==> drive(1, waits) == (RepairOutcome::Cleared { attempts: (k + 1) as u32 }),
        (forall|k: int| 0 <= k < MAX_REPAIR_ATTEMPTS ==> waits[k]) ==> drive(1, waits)
            == (RepairOutcome::GaveUp { attempts: MAX_REPAIR_ATTEMPTS }),
{
    lemma_drive_from(1, waits);
}

proof fn lemma_drive_from(n: nat, waits: Seq<bool>)
    requires
        1 <= n <= MAX_REPAIR_ATTEMPTS,
        waits.len() >= MAX_REPAIR_ATTEMPTS,
    ensures
        forall|k: int|
            #![trigger waits[k]]
            n - 1 <= k < MAX_REPAIR_ATTEMPTS && !waits[k] && (forall|j: int|
                n - 1 <= j < k ==> waits[j]) ==> drive(n, waits) == (RepairOutcome::Cleared {
                attempts: (k + 1) as u32,
            }),
        (forall|k: int| n - 1 <= k < MAX_REPAIR_ATTEMPTS ==> waits[k]) ==> drive(n, waits)
            == (RepairOutcome::GaveUp { attempts: MAX_REPAIR_ATTEMPTS }),
    decreases MAX_REPAIR_ATTEMPTS - n,
{
    if n < MAX_REPAIR_ATTEMPTS {
        lemma_drive_from(n + 1, waits);
        assert forall|k: int|
            #![trigger waits[k]]
            n - 1 <= k < MAX_REPAIR_ATTEMPTS && !waits[k] && (forall|j: int|
                n - 1 <= j < k ==> waits[j]) implies drive(n, waits) == RepairOutcome::Cleared {
            attempts: (k + 1) as u32,
        } by {
            if k > n - 1 {
                assert(waits[n - 1]);
            }
        }
    }
}

} // verus!
