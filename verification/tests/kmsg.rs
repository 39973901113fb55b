use minibookd::kmsg::{extract_message, is_dsi_error, needs_startup_repair};

#[test]
fn extract_message_strips_kmsg_metadata_prefix() {
    let raw = "6,1234,56789,-;i915 0000:00:02.0: [drm] *ERROR* DSI link not ready";
    assert_eq!(
        extract_message(raw),
        "i915 0000:00:02.0: [drm] *ERROR* DSI link not ready"
    );
}

#[test]
fn extract_message_returns_whole_line_if_no_semicolon() {
    let raw = "no semicolon here";
    assert_eq!(extract_message(raw), "no semicolon here");
}

#[test]
fn is_dsi_error_matches_the_real_failure_line() {
    assert!(is_dsi_error(
        "i915 0000:00:02.0: [drm] *ERROR* DSI link not ready"
    ));
}

#[test]
fn is_dsi_error_does_not_match_the_other_two_burst_lines() {
    assert!(!is_dsi_error(
        "i915 0000:00:02.0: [drm] *ERROR* DSI payload credits not released"
    ));
    assert!(!is_dsi_error(
        "i915 0000:00:02.0: [drm] *ERROR* DSI send packet failed with -EBUSY"
    ));
}

#[test]
fn is_dsi_error_does_not_match_unrelated_lines() {
    assert!(!is_dsi_error(
        "i915 0000:00:02.0: [drm] GT0: GuC firmware i915/adlp_guc_70.bin version 70.49.4"
    ));
}

#[test]
fn extract_message_splits_at_the_first_semicolon_only() {
    assert_eq!(extract_message("6,1,2,-;a;b"), "a;b");
    assert_eq!(extract_message(";"), "");
    assert_eq!(extract_message("é;ü"), "ü");
}

fn msgs(v: &[&str]) -> Vec<String> {
    v.iter().map(|s| s.to_string()).collect()
}

#[test]
fn startup_repair_needs_an_uncleared_dsi_error() {
    let dsi = "i915 0000:00:02.0: [drm] *ERROR* DSI link not ready";
    let reprobe = "i915 0000:00:02.0: reprobe complete";
    let resume = "PM: suspend exit";
    assert!(!needs_startup_repair(&msgs(&[])));
    assert!(!needs_startup_repair(&msgs(&["unrelated"])));
    assert!(needs_startup_repair(&msgs(&[dsi])));
    assert!(!needs_startup_repair(&msgs(&[dsi, reprobe])));
    assert!(needs_startup_repair(&msgs(&[reprobe, dsi])));
    assert!(!needs_startup_repair(&msgs(&[reprobe, dsi, resume])));
    assert!(needs_startup_repair(&msgs(&[dsi, resume, reprobe, dsi, "later"])));
}
