use minibookd::display::reset_rotation_args;

#[test]
fn builds_expected_busctl_args() {
    assert_eq!(
        reset_rotation_args(),
        vec![
            "--address",
            "unix:path=/run/user/1000/bus",
            "call",
            "org.gnome.Mutter.DisplayConfig",
            "/org/gnome/Mutter/DisplayConfig",
            "org.gnome.Mutter.DisplayConfig",
            "ApplyMonitorsConfig",
            "uua(iiduba(ssa{sv}))a{sv}",
            "1",
            "1",
            "1",
            "0",
            "0",
            "1.25",
            "0",
            "true",
            "1",
            "DSI-1",
            "1920x1200@50.000",
            "0",
            "0",
        ]
    );
}
