use minibookd::repair::{
    power_save_toggle_args, Repair, RepairAction, RepairOutcome, MAX_REPAIR_ATTEMPTS,
    POWER_SAVE_OFF, POWER_SAVE_ON,
};

#[test]
fn power_save_toggle_args_off_matches_the_verified_command() {
    assert_eq!(
        power_save_toggle_args(POWER_SAVE_OFF),
        vec![
            "--address",
            "unix:path=/run/user/1000/bus",
            "call",
            "org.gnome.Mutter.DisplayConfig",
            "/org/gnome/Mutter/DisplayConfig",
            "org.freedesktop.DBus.Properties",
            "Set",
            "ssv",
            "org.gnome.Mutter.DisplayConfig",
            "PowerSaveMode",
            "i",
            "3",
        ]
    );
}

#[test]
fn power_save_toggle_args_on_matches_the_verified_command() {
    let args = power_save_toggle_args(POWER_SAVE_ON);
    assert_eq!(args.last().unwrap(), "0");
}

#[test]
fn power_save_value_is_written_in_decimal() {
    for v in [i32::MIN, -10, -1, 0, 7, 10, 1234, i32::MAX] {
        assert_eq!(power_save_toggle_args(v).last().unwrap(), &v.to_string());
    }
}

fn drive(active: bool, waits: &[bool]) -> (RepairOutcome, usize) {
    let (mut rep, mut action) = Repair::start(active);
    let mut toggles = 0;
    loop {
        match action {
            RepairAction::Finish(o) => return (o, toggles),
            RepairAction::Toggle => {
                toggles += 1;
                action = rep.as_mut().unwrap().after_wait(waits[toggles - 1]);
            }
        }
    }
}

#[test]
fn inactive_repair_is_a_dry_run() {
    assert_eq!(drive(false, &[]), (RepairOutcome::DryRun, 0));
}

#[test]
fn repair_clears_at_the_first_quiet_wait() {
    assert_eq!(drive(true, &[false]), (RepairOutcome::Cleared { attempts: 1 }, 1));
    assert_eq!(
        drive(true, &[true, true, false, true, true]),
        (RepairOutcome::Cleared { attempts: 3 }, 3)
    );
}

#[test]
fn repair_gives_up_after_five_attempts() {
    assert_eq!(MAX_REPAIR_ATTEMPTS, 5);
    assert_eq!(
        drive(true, &[true; 8]),
        (RepairOutcome::GaveUp { attempts: 5 }, 5)
    );
}
