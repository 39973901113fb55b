//! Integer parsing and decimal formatting over characters, with the same
//! outcomes as the standard library's `from_str_radix` and `Display`.

use vstd::prelude::*;

verus! {

/// Why an integer could not be parsed (the kinds `ParseIntError` reports).
#[derive(Debug, Clone, Copy, PartialEq, Eq, Structural)]
pub enum IntErrorKind {
    Empty,
    InvalidDigit,
    PosOverflow,
    NegOverflow,
}

/// Value of `c` as a digit in radices up to 36: `0`-`9` are 0-9, letters
/// of either case are 10-35, anything else is 36 (a digit in no radix).
pub open spec fn digit_value(c: char) -> int {
    let u = c as u32;
    if 0x30 <= u <= 0x39 {
        u - 0x30
    } else if 0x61 <= u <= 0x7a {
        u - 0x61 + 10
    } else if 0x41 <= u <= 0x5a {
        u - 0x41 + 10
    } else {
        36
    }
}

/// Every character of `d` is a digit in `radix`.
pub open spec fn all_digits(d: Seq<char>, radix: int) -> bool {
    forall|i: int| 0 <= i < d.len() ==> digit_value(d[i]) < radix
}

/// Length of the longest prefix of `d` made of digits in `radix`.
pub open spec fn digits_len(d: Seq<char>, radix: int) -> nat
    decreases d.len(),
{
    if all_digits(d, radix) {
        d.len()
    } else {
        digits_len(d.drop_last(), radix)
    }
}

/// The number the digits `d` write in `radix`, most significant first.
pub open spec fn digits_value(d: Seq<char>, radix: int) -> int
    decreases d.len(),
{
    if d.len() == 0 {
        0
    } else {
        digits_value(d.drop_last(), radix) * radix + digit_value(d.last())
    }
}

/// What parsing the unsigned digit string `d` (negated when `neg`) into
/// the range `lo..=hi` gives: the digits are read left to right, so an
/// overflow in the leading run of digits is reported before a bad
/// character after it.
pub open spec fn parse_digits(d: Seq<char>, radix: int, neg: bool, lo: int, hi: int) -> Result<
    int,
    IntErrorKind,
> {
    let k = digits_len(d, radix);
    let v = digits_value(d.take(k as int), radix);
    let sv = if neg {
        -v
    } else {
        v
    };
    if sv > hi {
        Err(IntErrorKind::PosOverflow)
    } else if sv < lo {
        Err(IntErrorKind::NegOverflow)
    } else if k < d.len() {
        Err(IntErrorKind::InvalidDigit)
    } else {
        Ok(sv)
    }
}

/// What `from_str_radix` gives for `s` into the range `lo..=hi`: empty is
/// `Empty`; a lone sign is `InvalidDigit`; a leading `+` is skipped, and a
/// leading `-` is skipped and negates when `signed` (for an unsigned type
/// it is just a bad digit).
pub open spec fn parse_int(s: Seq<char>, radix: int, signed: bool, lo: int, hi: int) -> Result<
    int,
    IntErrorKind,
> {
    if s.len() == 0 {
        Err(IntErrorKind::Empty)
    } else if s.len() == 1 && (s[0] == '+' || s[0] == '-') {
        Err(IntErrorKind::InvalidDigit)
    } else if s[0] == '+' {
        parse_digits(s.drop_first(), radix, false, lo, hi)
    } else if signed && s[0] == '-' {
        parse_digits(s.drop_first(), radix, true, lo, hi)
    } else {
        parse_digits(s, radix, false, lo, hi)
    }
}

/// An executable parse result agrees with a spec outcome.
pub open spec fn outcome_is(r: Result<i128, IntErrorKind>, p: Result<int, IntErrorKind>) -> bool {
    match r {
        Ok(x) => p == Ok::<int, IntErrorKind>(x as int),
        Err(e) => p == Err::<int, IntErrorKind>(e),
    }
}

fn char_digit(c: char) -> (d: u32)
    ensures
        d == digit_value(c),
{
    let u = c as u32;
    if 0x30 <= u && u <= 0x39 {
        u - 0x30
    } else if 0x61 <= u && u <= 0x7a {
        u - 0x61 + 10
    } else if 0x41 <= u && u <= 0x5a {
        u - 0x41 + 10
    } else {
        36
    }
}

proof fn lemma_digits_value_nonneg(d: Seq<char>, radix: int)
    requires
        radix >= 2,
    ensures
        digits_value(d, radix) >= 0,
    decreases d.len(),
{
    if d.len() > 0 {
        lemma_digits_value_nonneg(d.drop_last(), radix);
        let v = digits_value(d.drop_last(), radix);
        assert(v * radix >= 0) by (nonlinear_arith)
            requires
                v >= 0,
                radix >= 2,
        ;
    }
}

/// Longer prefixes of a digit string never write a smaller number.
proof fn lemma_digits_value_grows(d: Seq<char>, radix: int, i: int, k: int)
    requires
        radix >= 2,
        0 <= i <= k <= d.len(),
    ensures
        digits_value(d.take(i), radix) <= digits_value(d.take(k), radix),
    decreases k - i,
{
    if i < k {
        lemma_digits_value_grows(d, radix, i, k - 1);
        assert(d.take(k).drop_last() =~= d.take(k - 1));
        lemma_digits_value_nonneg(d.take(k - 1), radix);
        let v = digits_value(d.take(k - 1), radix);
        assert(v * radix >= v) by (nonlinear_arith)
            requires
                v >= 0,
                radix >= 2,
        ;
    }
}

/// `digits_len` is the first position that is not a digit.
proof fn lemma_digits_len(d: Seq<char>, radix: int)
    ensures
        digits_len(d, radix) <= d.len(),
        all_digits(d.take(digits_len(d, radix) as int), radix),
        digits_len(d, radix) < d.len() ==> digit_value(d[digits_len(d, radix) as int]) >= radix,
    decreases d.len(),
{
    if !all_digits(d, radix) {
        lemma_digits_len(d.drop_last(), radix);
        let k = digits_len(d.drop_last(), radix);
        assert(d.take(k as int) =~= d.drop_last().take(k as int));
        if k == d.len() - 1 {
            assert(forall|i: int| 0 <= i < d.len() - 1 ==> d[i] == d.drop_last()[i]);
            assert(!(digit_value(d[k as int]) < radix));
        } else {
            assert(d[k as int] == d.drop_last()[k as int]);
        }
    } else {
        assert(d.take(d.len() as int) =~= d);
    }
}

/// Parses `v[start..end]` as `from_str_radix` would into `lo..=hi`.
pub fn parse_int_chars(
    v: &Vec<char>,
    start: usize,
    end: usize,
    radix: u32,
    signed: bool,
    lo: i128,
    hi: i128,
) -> (r: Result<i128, IntErrorKind>)
    requires
        start <= end <= v@.len(),
        2 <= radix <= 36,
        -0x1_0000_0000_0000_0000 <= lo <= 0 <= hi <= 0x1_0000_0000_0000_0000,
    ensures
        outcome_is(r, parse_int(v@.subrange(start as int, end as int), radix as int, signed, lo as int, hi as int)),
{
    let ghost s = v@.subrange(start as int, end as int);
    if start == end {
        return Err(IntErrorKind::Empty);
    }
    let first = v[start];
    if end - start == 1 && (first == '+' || first == '-') {
        return Err(IntErrorKind::InvalidDigit);
    }
    let mut neg = false;
    let mut i = start;
    if first == '+' {
        i = start + 1;
    } else if signed && first == '-' {
        neg = true;
        i = start + 1;
    }
    let ghost d = v@.subrange(i as int, end as int);
    assert(i == start ==> d =~= s);
    assert(i == start + 1 ==> d =~= s.drop_first());
    proof {
        lemma_digits_len(d, radix as int);
    }
    let ghost k = digits_len(d, radix as int);
    assert(parse_int(s, radix as int, signed, lo as int, hi as int) == parse_digits(
        d,
        radix as int,
        neg,
        lo as int,
        hi as int,
    ));
    let base = i;
    let mut acc: i128 = 0;
    assert(d.take(0) =~= Seq::<char>::empty());
    while i < end
        invariant
            base <= i <= end <= v@.len(),
            d == v@.subrange(base as int, end as int),
            s == v@.subrange(start as int, end as int),
            parse_int(s, radix as int, signed, lo as int, hi as int) == parse_digits(
                d,
                radix as int,
                neg,
                lo as int,
                hi as int,
            ),
            2 <= radix <= 36,
            -0x1_0000_0000_0000_0000 <= lo <= 0 <= hi <= 0x1_0000_0000_0000_0000,
            k == digits_len(d, radix as int),
            k <= d.len(),
            all_digits(d.take(k as int), radix as int),
            k < d.len() ==> digit_value(d[k as int]) >= radix,
            i - base <= k,
            lo <= acc <= hi,
            acc == (if neg {
                -digits_value(d.take(i - base), radix as int)
            } else {
                digits_value(d.take(i - base), radix as int)
            }),
        decreases end - i,
    {
        let ghost j = i - base;
        let dv = char_digit(v[i]);
        assert(v[i as int] == d[j]);
        if dv >= radix {
            assert(j == k) by {
                if j < k {
                    assert(d.take(k as int)[j] == d[j]);
                }
            }
            return Err(IntErrorKind::InvalidDigit);
        }
        assert(j < k) by {
            if j == k {
            }
        }
        assert(d.take(j + 1).drop_last() =~= d.take(j));
        assert(d.take(j + 1).last() == d[j]);
        proof {
            lemma_digits_value_nonneg(d.take(j), radix as int);
        }
        assert(-0x24_0000_0000_0000_0000 <= acc * (radix as i128) <= 0x24_0000_0000_0000_0000)
            by (nonlinear_arith)
            requires
                -0x1_0000_0000_0000_0000 <= acc <= 0x1_0000_0000_0000_0000,
                2 <= radix <= 36,
        ;
        let next: i128 = if neg {
            acc * (radix as i128) - (dv as i128)
        } else {
            acc * (radix as i128) + (dv as i128)
        };
        let ghost prev_v = digits_value(d.take(j), radix as int);
        let ghost new_v = digits_value(d.take(j + 1), radix as int);
        assert(new_v == prev_v * radix + dv);
        assert(next == (if neg {
            -new_v
        } else {
            new_v
        })) by (nonlinear_arith)
            requires
                new_v == prev_v * radix + dv,
                acc == (if neg {
                    -prev_v
                } else {
                    prev_v
                }),
                next == (if neg {
                    acc * radix - dv
                } else {
                    acc * radix + dv
                }),
        ;
        if next > hi {
            proof {
                lemma_digits_value_grows(d, radix as int, j + 1, k as int);
                lemma_digits_value_nonneg(d.take(j + 1), radix as int);
            }
            return Err(IntErrorKind::PosOverflow);
        }
        if next < lo {
            proof {
                lemma_digits_value_grows(d, radix as int, j + 1, k as int);
            }
            return Err(IntErrorKind::NegOverflow);
        }
        acc = next;
        i = i + 1;
    }
    assert(i - base == d.len());
    assert(k == d.len());
    assert(d.take(k as int) =~= d);
    Ok(acc)
}

/// The character of the decimal digit `d`.
pub open spec fn digit_char(d: int) -> char {
    (d + 0x30) as char
}

/// The decimal digits of `n`, most significant first, without leading
/// zeros (a single `0` for zero).
pub open spec fn decimal_digits(n: nat) -> Seq<char>
    decreases n,
{
    if n < 10 {
        seq![digit_char(n as int)]
    } else {
        decimal_digits(n / 10) + seq![digit_char((n % 10) as int)]
    }
}

/// How `Display` writes an integer: a `-` before negative numbers, then
/// the decimal digits of its magnitude.
pub open spec fn decimal(n: int) -> Seq<char> {
    if n < 0 {
        seq!['-'] + decimal_digits((-n) as nat)
    } else {
        decimal_digits(n as nat)
    }
}

fn digit_str(d: u64) -> (s: &'static str)
    requires
        d < 10,
    ensures
        s@ == seq![digit_char(d as int)],
{
    proof {
        reveal_strlit("0");
        reveal_strlit("1");
        reveal_strlit("2");
        reveal_strlit("3");
        reveal_strlit("4");
        reveal_strlit("5");
        reveal_strlit("6");
        reveal_strlit("7");
        reveal_strlit("8");
        reveal_strlit("9");
    }
    let s = match d {
        0 => "0",
        1 => "1",
        2 => "2",
        3 => "3",
        4 => "4",
        5 => "5",
        6 => "6",
        7 => "7",
        8 => "8",
        _ => "9",
    };
    assert(s@ =~= seq![digit_char(d as int)]);
    s
}

fn format_magnitude(n: u64) -> (s: String)
    ensures
        s@ == decimal_digits(n as nat),
    decreases n,
{
    if n < 10 {
        String::from_str(digit_str(n))
    } else {
        let head = format_magnitude(n / 10);
        head.concat(digit_str(n % 10))
    }
}

/// `n` written in decimal, as `n.to_string()` writes it.
pub fn format_decimal(n: i32) -> (s: String)
    ensures
        s@ == decimal(n as int),
{
    proof {
        reveal_strlit("-");
    }
    if n < 0 {
        let m: u64 = (0 - (n as i64)) as u64;
        let digits = format_magnitude(m);
        let s = String::from_str("-").concat(digits.as_str());
        s
    } else {
        format_magnitude(n as u64)
    }
}

/// The message `ParseIntError` displays for each kind.
pub open spec fn int_error_text(k: IntErrorKind) -> Seq<char> {
    match k {
        IntErrorKind::Empty => "cannot parse integer from empty string"@,
        IntErrorKind::InvalidDigit => "invalid digit found in string"@,
        IntErrorKind::PosOverflow => "number too large to fit in target type"@,
        IntErrorKind::NegOverflow => "number too small to fit in target type"@,
    }
}

/// The message `ParseIntError` displays for `k`.
pub fn int_error_message(k: IntErrorKind) -> (m: &'static str)
    ensures
        m@ == int_error_text(k),
{
    match k {
        IntErrorKind::Empty => "cannot parse integer from empty string",
        IntErrorKind::InvalidDigit => "invalid digit found in string",
        IntErrorKind::PosOverflow => "number too large to fit in target type",
        IntErrorKind::NegOverflow => "number too small to fit in target type",
    }
}

} // verus!
