use minibookd::cli::{parse, DEFAULT_ACPI_PATH, DEFAULT_BASE_ACCEL, DEFAULT_DISPLAY_ACCEL};

fn args(v: &[&str]) -> Vec<String> {
    v.iter().map(|s| s.to_string()).collect()
}

#[test]
fn defaults_with_no_flags() {
    let cli = parse(&args(&[])).unwrap();
    assert!(!cli.dry_run);
    assert!(!cli.revert_only);
    assert_eq!(cli.acpi_path, DEFAULT_ACPI_PATH);
    assert_eq!(cli.display_accel, DEFAULT_DISPLAY_ACCEL);
    assert_eq!(cli.base_accel, DEFAULT_BASE_ACCEL);
}

#[test]
fn dry_run_flag() {
    let cli = parse(&args(&["--dry-run"])).unwrap();
    assert!(cli.dry_run);
}

#[test]
fn revert_only_flag() {
    let cli = parse(&args(&["--revert-only"])).unwrap();
    assert!(cli.revert_only);
}

#[test]
fn acpi_path_override() {
    let cli = parse(&args(&["--acpi-path", "\\_SB.CUSTOM.LTSM"])).unwrap();
    assert_eq!(cli.acpi_path, "\\_SB.CUSTOM.LTSM");
}

#[test]
fn dry_run_and_revert_only_together_is_rejected() {
    assert!(parse(&args(&["--dry-run", "--revert-only"])).is_err());
}

#[test]
fn unknown_flag_is_rejected() {
    assert!(parse(&args(&["--bogus"])).is_err());
}

#[test]
fn acpi_path_missing_value_is_rejected() {
    assert!(parse(&args(&["--acpi-path"])).is_err());
}

#[test]
fn cli_error_messages() {
    assert_eq!(parse(&args(&["--bogus"])).err(), Some("unknown flag: --bogus".to_string()));
    assert_eq!(
        parse(&args(&["--acpi-path"])).err(),
        Some("--acpi-path requires a value".to_string())
    );
    assert_eq!(
        parse(&args(&["--display-accel"])).err(),
        Some("--display-accel requires a value".to_string())
    );
    assert_eq!(
        parse(&args(&["--base-accel"])).err(),
        Some("--base-accel requires a value".to_string())
    );
    assert_eq!(
        parse(&args(&["--revert-only", "--dry-run"])).err(),
        Some("--dry-run and --revert-only are mutually exclusive".to_string())
    );
}

#[test]
fn cli_device_overrides_and_last_value_wins() {
    let cli = parse(&args(&[
        "--display-accel",
        "/d",
        "--base-accel",
        "/b",
        "--acpi-path",
        "A",
        "--acpi-path",
        "B",
        "--dry-run",
        "--dry-run",
    ]))
    .unwrap();
    assert_eq!(cli.display_accel, "/d");
    assert_eq!(cli.base_accel, "/b");
    assert_eq!(cli.acpi_path, "B");
    assert!(cli.dry_run);
    assert!(!cli.revert_only);
}

#[test]
fn cli_value_may_look_like_a_flag() {
    let cli = parse(&args(&["--acpi-path", "--dry-run"])).unwrap();
    assert_eq!(cli.acpi_path, "--dry-run");
    assert!(!cli.dry_run);
}
