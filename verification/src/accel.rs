//! Parsing of one accelerometer axis, as read from an IIO device's
//! `in_accel_*_raw` sysfs attribute.

use vstd::prelude::*;
use crate::numeric::{IntErrorKind, parse_int, int_error_text, parse_int_chars, int_error_message};
use crate::text::{trim, debug_str, chars_of, trim_bounds, debug_quoted};

verus! {

/// What an axis attribute's text holds: surrounding whitespace is
/// ignored, the rest must be a decimal `i64` with an optional sign.
pub open spec fn raw_component_value(s: Seq<char>) -> Result<int, IntErrorKind> {
    parse_int(trim(s, false), 10, true, i64::MIN as int, i64::MAX as int)
}

/// The error reported for the text `s`, rejected with `kind`.
pub open spec fn raw_component_error(s: Seq<char>, kind: IntErrorKind) -> Seq<char> {
    "invalid accelerometer raw value "@ + debug_str(s) + ": "@ + int_error_text(kind)
}

/// Parses one raw axis value: the trimmed text as a decimal `i64`, or an
/// error naming the text (in `{:?}` form) and why it was rejected.
pub fn parse_raw_component(s: &str) -> (r: Result<i64, String>)
    ensures
        match raw_component_value(s@) {
            Ok(v) => r == Ok::<i64, String>(v as i64),
            Err(kind) => r matches Err(msg) && msg@ == raw_component_error(s@, kind),
        },
{
    let chars = chars_of(s);
    let (start, end) = trim_bounds(&chars, false);
    match parse_int_chars(&chars, start, end, 10, true, i64::MIN as i128, i64::MAX as i128) {
        Ok(v) => Ok(v as i64),
        Err(kind) => {
            let msg = String::from_str("invalid accelerometer raw value ")
                .concat(debug_quoted(s).as_str())
                .concat(": ")
                .concat(int_error_message(kind));
            Err(msg)
        },
    }
}

} // verus!
