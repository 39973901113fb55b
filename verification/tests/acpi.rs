use minibookd::acpi::{format_call, parse_response};

#[test]
fn formats_enable_call() {
    assert_eq!(
        format_call("\\_SB.PC00.I2C1.ACMG.LTSM", true),
        "\\_SB.PC00.I2C1.ACMG.LTSM 0x1"
    );
}

#[test]
fn formats_disable_call() {
    assert_eq!(
        format_call("\\_SB.PC00.I2C1.ACMG.LTSM", false),
        "\\_SB.PC00.I2C1.ACMG.LTSM 0x0"
    );
}

#[test]
fn parses_hex_response() {
    assert_eq!(parse_response("0x44000200\n"), Ok(0x44000200));
}

#[test]
fn rejects_unparseable_response() {
    assert!(parse_response("Error: AE_NOT_FOUND").is_err());
}

#[test]
fn parses_response_with_trailing_nul() {
    assert_eq!(parse_response("0x40900102\0"), Ok(0x40900102));
}

#[test]
fn response_errors_name_the_trimmed_body() {
    assert_eq!(
        parse_response("Error: AE_NOT_FOUND\n"),
        Err("unexpected /proc/acpi/call response: \"Error: AE_NOT_FOUND\"".to_string())
    );
    assert_eq!(
        parse_response("0xZZ\0"),
        Err("unparseable /proc/acpi/call response \"0xZZ\": invalid digit found in string".to_string())
    );
    assert_eq!(
        parse_response("0x"),
        Err("unparseable /proc/acpi/call response \"0x\": cannot parse integer from empty string".to_string())
    );
    assert_eq!(
        parse_response("0x100000000"),
        Err("unparseable /proc/acpi/call response \"0x100000000\": number too large to fit in target type".to_string())
    );
}

#[test]
fn response_digits_follow_from_str_radix() {
    assert_eq!(parse_response("\0 0xffffFFFF \0\0"), Ok(u32::MAX));
    assert_eq!(parse_response("0x+1f"), Ok(0x1f));
    assert!(parse_response("0x-1").is_err());
    assert!(parse_response("0X10").is_err());
    for body in ["0", "ff", "+", "-1", "1g", "00000000000000001", "+abc"] {
        let ours = parse_response(&format!("0x{body}"));
        let std = u32::from_str_radix(body, 16);
        match (ours, std) {
            (Ok(a), Ok(b)) => assert_eq!(a, b),
            (Err(m), Err(e)) => assert_eq!(
                m,
                format!("unparseable /proc/acpi/call response {:?}: {e}", format!("0x{body}"))
            ),
            (a, b) => panic!("{body:?}: {a:?} vs {b:?}"),
        }
    }
}
