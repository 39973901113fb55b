//! The `busctl` call that resets Mutter's monitor rotation to normal.
//!
//! This unit's only display and its known-good logical-monitor
//! configuration (connector, mode, position, scale) are fixed here rather
//! than read back live: a scale changed in GNOME Settings is reset to
//! 1.25 on the next Tablet-to-Laptop transition.

use vstd::prelude::*;
use crate::cli::arg_views;

verus! {

pub const CONNECTOR: &'static str = "DSI-1";

pub const MODE_ID: &'static str = "1920x1200@50.000";

pub const SCALE: &'static str = "1.25";

/// The logged-in user's session bus, where Mutter's `DisplayConfig`
/// interface lives (uid 1000 on this unit).
pub const SESSION_BUS_ADDRESS: &'static str = "unix:path=/run/user/1000/bus";

/// The user the call runs as: the session bus authenticates by the real
/// uid of the connecting process and rejects root.
pub const TARGET_USER: &'static str = "pxgray";

pub const APPLY_MONITORS_CONFIG_SIGNATURE: &'static str = "uua(iiduba(ssa{sv}))a{sv}";

/// The arguments after `busctl`: call `ApplyMonitorsConfig` with serial
/// 1 and method 1 (temporary, `monitors.xml` is not rewritten), one
/// logical monitor at (0, 0) with scale 1.25, transform 0 (normal),
/// primary, on connector `DSI-1` in mode `1920x1200@50.000`, with empty
/// property maps.
pub open spec fn reset_rotation_arg_list() -> Seq<Seq<char>> {
    seq![
        "--address"@,
        SESSION_BUS_ADDRESS@,
        "call"@,
        "org.gnome.Mutter.DisplayConfig"@,
        "/org/gnome/Mutter/DisplayConfig"@,
        "org.gnome.Mutter.DisplayConfig"@,
        "ApplyMonitorsConfig"@,
        APPLY_MONITORS_CONFIG_SIGNATURE@,
        "1"@,
        "1"@,
        "1"@,
        "0"@,
        "0"@,
        SCALE@,
        "0"@,
        "true"@,
        "1"@,
        CONNECTOR@,
        MODE_ID@,
        "0"@,
        "0"@,
    ]
}

/// Builds the `busctl` arguments that force the rotation back to normal.
pub fn reset_rotation_args() -> (r: Vec<String>)
    ensures
        arg_views(r@) == reset_rotation_arg_list(),
{
    let mut r: Vec<String> = Vec::new();
    r.push(String::from_str("--address"));
    r.push(String::from_str(SESSION_BUS_ADDRESS));
    r.push(String::from_str("call"));
    r.push(String::from_str("org.gnome.Mutter.DisplayConfig"));
    r.push(String::from_str("/org/gnome/Mutter/DisplayConfig"));
    r.push(String::from_str("org.gnome.Mutter.DisplayConfig"));
    r.push(String::from_str("ApplyMonitorsConfig"));
    r.push(String::from_str(APPLY_MONITORS_CONFIG_SIGNATURE));
    // serial (not checked by Mutter in practice, but required)
    r.push(String::from_str("1"));
    // method 1: temporary
    r.push(String::from_str("1"));
    // logical_monitors[0]: x, y, scale, transform=normal, primary
    r.push(String::from_str("1"));
    r.push(String::from_str("0"));
    r.push(String::from_str("0"));
    r.push(String::from_str(SCALE));
    r.push(String::from_str("0"));
    r.push(String::from_str("true"));
    // monitors[0]: connector, mode_id, {}
    r.push(String::from_str("1"));
    r.push(String::from_str(CONNECTOR));
    r.push(String::from_str(MODE_ID));
    r.push(String::from_str("0"));
    // top-level properties: {}
    r.push(String::from_str("0"));
    assert(arg_views(r@) =~= reset_rotation_arg_list());
    r
}

} // verus!
