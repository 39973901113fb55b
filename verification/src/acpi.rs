//! The text protocol of `/proc/acpi/call`: the call written to it and the
//! response read back.

use vstd::prelude::*;
use crate::numeric::{IntErrorKind, parse_int, int_error_text, parse_int_chars, int_error_message};
use crate::text::{trim, debug_str, chars_of, trim_bounds, debug_quoted};

verus! {

/// The call line: the method path, a space and the argument `0x1` to
/// enable tablet mode or `0x0` to disable it.
pub fn format_call(path: &str, enable: bool) -> (r: String)
    ensures
        r@ == path@ + (if enable {
            " 0x1"@
        } else {
            " 0x0"@
        }),
{
    let arg = if enable {
        " 0x1"
    } else {
        " 0x0"
    };
    String::from_str(path).concat(arg)
}

/// The response with surrounding whitespace and NUL bytes removed (the
/// read handler returns a fixed-size buffer whose unused tail is NUL).
pub open spec fn response_body(s: Seq<char>) -> Seq<char> {
    trim(s, true)
}

/// What a response holds: a trimmed body that starts with `0x`, followed
/// by a `u32` in hexadecimal (`from_str_radix` with radix 16). `None`
/// when the body does not start with `0x`.
pub open spec fn response_value(s: Seq<char>) -> Option<Result<int, IntErrorKind>> {
    let t = response_body(s);
    if t.len() >= 2 && t[0] == '0' && t[1] == 'x' {
        Some(parse_int(t.skip(2), 16, false, 0, u32::MAX as int))
    } else {
        None
    }
}

/// Parses a `/proc/acpi/call` response into the method's return value.
/// A body without the `0x` prefix is reported as unexpected, one whose
/// digits do not parse as unparseable with the reason; both name the
/// trimmed body in `{:?}` form.
pub fn parse_response(s: &str) -> (r: Result<u32, String>)
    ensures
        match response_value(s@) {
            Some(Ok(v)) => r == Ok::<u32, String>(v as u32),
            Some(Err(kind)) => r matches Err(msg) && msg@ == "unparseable /proc/acpi/call response "@
                + debug_str(response_body(s@)) + ": "@ + int_error_text(kind),
            None => r matches Err(msg) && msg@ == "unexpected /proc/acpi/call response: "@
                + debug_str(response_body(s@)),
        },
{
    let chars = chars_of(s);
    let (start, end) = trim_bounds(&chars, true);
    let body = s.substring_char(start, end);
    let ghost t = chars@.subrange(start as int, end as int);
    assert(body@ == t);
    if end - start >= 2 && chars[start] == '0' && chars[start + 1] == 'x' {
        assert(t.skip(2) =~= chars@.subrange(start + 2, end as int));
        match parse_int_chars(&chars, start + 2, end, 16, false, 0, u32::MAX as i128) {
            Ok(v) => Ok(v as u32),
            Err(kind) => {
                let msg = String::from_str("unparseable /proc/acpi/call response ")
                    .concat(debug_quoted(body).as_str())
                    .concat(": ")
                    .concat(int_error_message(kind));
                Err(msg)
            },
        }
    } else {
        let msg = String::from_str("unexpected /proc/acpi/call response: ")
            .concat(debug_quoted(body).as_str());
        Err(msg)
    }
}

} // verus!
