use minibookd::accel::parse_raw_component;

#[test]
fn parses_plain_integer() {
    assert_eq!(parse_raw_component("450"), Ok(450));
}

#[test]
fn parses_negative_integer_with_trailing_newline() {
    assert_eq!(parse_raw_component("-1632\n"), Ok(-1632));
}

#[test]
fn rejects_non_numeric_input() {
    assert!(parse_raw_component("not a number").is_err());
}

#[test]
fn raw_component_error_names_the_text_and_the_reason() {
    assert_eq!(
        parse_raw_component("not a number"),
        Err("invalid accelerometer raw value \"not a number\": invalid digit found in string".to_string())
    );
    assert_eq!(
        parse_raw_component(" \n"),
        Err("invalid accelerometer raw value \" \\n\": cannot parse integer from empty string".to_string())
    );
}

#[test]
fn raw_component_accepts_plus_sign_and_surrounding_whitespace() {
    assert_eq!(parse_raw_component("\t+17  "), Ok(17));
    assert_eq!(parse_raw_component("007"), Ok(7));
}

#[test]
fn raw_component_rejects_lone_signs_and_inner_spaces() {
    assert!(parse_raw_component("-").is_err());
    assert!(parse_raw_component("+").is_err());
    assert!(parse_raw_component("1 2").is_err());
    assert!(parse_raw_component("--1").is_err());
}

#[test]
fn raw_component_range_is_exactly_i64() {
    assert_eq!(parse_raw_component("9223372036854775807"), Ok(i64::MAX));
    assert_eq!(parse_raw_component("-9223372036854775808"), Ok(i64::MIN));
    assert_eq!(
        parse_raw_component("9223372036854775808"),
        Err("invalid accelerometer raw value \"9223372036854775808\": number too large to fit in target type".to_string())
    );
    assert_eq!(
        parse_raw_component("-9223372036854775809"),
        Err("invalid accelerometer raw value \"-9223372036854775809\": number too small to fit in target type".to_string())
    );
}

#[test]
fn raw_component_agrees_with_std_parse() {
    let cases = [
        "0", "-0", "+0", "12", " 12 ", "1x", "x1", "", "99999999999999999999x", "-",
        "\u{a0}5\u{3000}", "5\u{200b}", "١٢",
    ];
    for c in cases {
        let ours = parse_raw_component(c);
        let std = c.trim().parse::<i64>();
        match (ours, std) {
            (Ok(a), Ok(b)) => assert_eq!(a, b, "{c:?}"),
            (Err(m), Err(e)) => {
                assert_eq!(m, format!("invalid accelerometer raw value {c:?}: {e}"))
            }
            (a, b) => panic!("{c:?}: {a:?} vs {b:?}"),
        }
    }
}
