//! Character-level helpers over `&str`: trimming, comparison, searching,
//! integer parsing and decimal formatting, each against a spec over the
//! string's characters.

use vstd::prelude::*;

verus! {

/// Copies the characters of `s` into a vector.
pub fn chars_of(s: &str) -> (v: Vec<char>)
    ensures
        v@ == s@,
{
    let mut v: Vec<char> = Vec::new();
    for c in it: s.chars()
        invariant
            v@ == it.seq().take(it.index() as int),
            it.seq() == s@,
    {
        v.push(c);
    }
    v
}

/// Unicode `White_Space`, the set `char::is_whitespace` tests.
pub open spec fn is_whitespace(c: char) -> bool {
    let u = c as u32;
    ||| 0x09 <= u <= 0x0d
    ||| u == 0x20
    ||| u == 0x85
    ||| u == 0xa0
    ||| u == 0x1680
    ||| 0x2000 <= u <= 0x200a
    ||| u == 0x2028
    ||| u == 0x2029
    ||| u == 0x202f
    ||| u == 0x205f
    ||| u == 0x3000
}

/// The characters a trim removes: whitespace, and also NUL when
/// `with_nul` holds.
pub open spec fn is_trimmed(c: char, with_nul: bool) -> bool {
    is_whitespace(c) || (with_nul && c == '\0')
}

/// `s` without its leading trimmed characters.
pub open spec fn trim_start(s: Seq<char>, with_nul: bool) -> Seq<char>
    decreases s.len(),
{
    if s.len() > 0 && is_trimmed(s[0], with_nul) {
        trim_start(s.drop_first(), with_nul)
    } else {
        s
    }
}

/// `s` without its trailing trimmed characters.
pub open spec fn trim_end(s: Seq<char>, with_nul: bool) -> Seq<char>
    decreases s.len(),
{
    if s.len() > 0 && is_trimmed(s.last(), with_nul) {
        trim_end(s.drop_last(), with_nul)
    } else {
        s
    }
}

/// `s` without leading and trailing trimmed characters.
pub open spec fn trim(s: Seq<char>, with_nul: bool) -> Seq<char> {
    trim_end(trim_start(s, with_nul), with_nul)
}

fn char_is_whitespace(c: char) -> (b: bool)
    ensures
        b == is_whitespace(c),
{
    let u = c as u32;
    (0x09 <= u && u <= 0x0d) || u == 0x20 || u == 0x85 || u == 0xa0 || u == 0x1680 || (0x2000
        <= u && u <= 0x200a) || u == 0x2028 || u == 0x2029 || u == 0x202f || u == 0x205f || u
        == 0x3000
}

/// The bounds `start..end` of the trimmed part of `v`.
pub fn trim_bounds(v: &Vec<char>, with_nul: bool) -> (r: (usize, usize))
    ensures
        r.0 <= r.1 <= v@.len(),
        v@.subrange(r.0 as int, r.1 as int) == trim(v@, with_nul),
{
    let len = v.len();
    let mut start: usize = 0;
    assert(v@.subrange(0, len as int) =~= v@);
    while start < len && (char_is_whitespace(v[start]) || (with_nul && v[start] == '\0'))
        invariant
            start <= len == v@.len(),
            trim_start(v@, with_nul) == trim_start(v@.subrange(start as int, len as int), with_nul),
        decreases len - start,
    {
        assert(v@.subrange(start as int, len as int).drop_first() =~= v@.subrange(
            start + 1,
            len as int,
        ));
        start = start + 1;
    }
    let ghost t = v@.subrange(start as int, len as int);
    assert(trim_start(v@, with_nul) == t);
    let mut end: usize = len;
    while end > start && (char_is_whitespace(v[end - 1]) || (with_nul && v[end - 1] == '\0'))
        invariant
            start <= end <= len == v@.len(),
            t == v@.subrange(start as int, len as int),
            trim_end(t, with_nul) == trim_end(v@.subrange(start as int, end as int), with_nul),
        decreases end - start,
    {
        assert(v@.subrange(start as int, end as int).drop_last() =~= v@.subrange(
            start as int,
            end - 1,
        ));
        end = end - 1;
    }
    (start, end)
}

/// Whether two strings hold the same characters.
pub fn str_eq(a: &str, b: &str) -> (r: bool)
    ensures
        r == (a@ == b@),
{
    let va = chars_of(a);
    let vb = chars_of(b);
    if va.len() != vb.len() {
        return false;
    }
    let mut i: usize = 0;
    while i < va.len()
        invariant
            va@ == a@,
            vb@ == b@,
            va@.len() == vb@.len(),
            i <= va@.len(),
            forall|j: int| 0 <= j < i ==> va@[j] == vb@[j],
        decreases va@.len() - i,
    {
        if va[i] != vb[i] {
            return false;
        }
        i = i + 1;
    }
    assert(va@ =~= vb@);
    true
}

/// `pattern` occurs in `s` starting at position `i`.
pub open spec fn occurs_at(s: Seq<char>, pattern: Seq<char>, i: int) -> bool {
    0 <= i && i + pattern.len() <= s.len() && s.subrange(i, i + pattern.len()) == pattern
}

/// `pattern` occurs somewhere in `s`.
pub open spec fn contains(s: Seq<char>, pattern: Seq<char>) -> bool {
    exists|i: int| occurs_at(s, pattern, i)
}

/// Whether `pattern` occurs in `s`.
pub fn contains_chars(s: &Vec<char>, pattern: &Vec<char>) -> (r: bool)
    ensures
        r == contains(s@, pattern@),
{
    let n = s.len();
    let m = pattern.len();
    if m > n {
        assert forall|i: int| !occurs_at(s@, pattern@, i) by {}
        return false;
    }
    if m == 0 {
        assert(s@.subrange(0, 0) =~= pattern@);
        assert(occurs_at(s@, pattern@, 0));
        return true;
    }
    let mut i: usize = 0;
    while i <= n - m
        invariant
            n == s@.len(),
            m == pattern@.len(),
            0 < m <= n,
            i <= n - m + 1,
            forall|k: int| 0 <= k < i ==> !occurs_at(s@, pattern@, k),
        decreases n - m + 1 - i,
    {
        let mut j: usize = 0;
        let mut matched = true;
        while j < m
            invariant
                n == s@.len(),
                m == pattern@.len(),
                i + m <= n,
                j <= m,
                matched ==> forall|k: int| 0 <= k < j ==> s@[i + k] == pattern@[k],
                !matched ==> !occurs_at(s@, pattern@, i as int),
            decreases m - j,
        {
            if s[i + j] != pattern[j] {
                matched = false;
                assert(s@.subrange(i as int, i + m)[j as int] == s@[i + j]);
            }
            j = j + 1;
        }
        if matched {
            assert(s@.subrange(i as int, i + m) =~= pattern@);
            assert(occurs_at(s@, pattern@, i as int));
            return true;
        }
        i = i + 1;
    }
    assert forall|k: int| !occurs_at(s@, pattern@, k) by {
        if 0 <= k < i {
        }
    }
    false
}

/// Index of the first occurrence of `c` in `s`, if any.
pub open spec fn first_index_of(s: Seq<char>, c: char) -> Option<int> {
    if exists|i: int| 0 <= i < s.len() && s[i] == c {
        Some(choose|i: int| 0 <= i < s.len() && s[i] == c && forall|k: int| 0 <= k < i ==> s[k] != c)
    } else {
        None
    }
}

/// Position of the first `c` in `v`, if any.
pub fn find_char(v: &Vec<char>, c: char) -> (r: Option<usize>)
    ensures
        match r {
            Some(i) => i < v@.len() && v@[i as int] == c && forall|k: int| 0 <= k < i ==> v@[k] != c,
            None => forall|k: int| 0 <= k < v@.len() ==> v@[k] != c,
        },
        r matches Some(i) ==> first_index_of(v@, c) == Some(i as int),
        r is None <==> first_index_of(v@, c) is None,
{
    let mut i: usize = 0;
    while i < v.len()
        invariant
            i <= v@.len(),
            forall|k: int| 0 <= k < i ==> v@[k] != c,
        decreases v@.len() - i,
    {
        if v[i] == c {
            let ghost w = choose|j: int|
                0 <= j < v@.len() && v@[j] == c && forall|k: int| 0 <= k < j ==> v@[k] != c;
            assert(0 <= i < v@.len() && v@[i as int] == c && forall|k: int|
                0 <= k < i ==> v@[k] != c);
            assert(w == i) by {
                if w < i {
                } else if w > i {
                    assert(v@[i as int] != c);
                }
            }
            return Some(i);
        }
        i = i + 1;
    }
    None
}

/// What `{:?}` writes for a string with the characters `s`.
pub uninterp spec fn debug_str(s: Seq<char>) -> Seq<char>;

/// Formats `s` with `{:?}`, i.e. `<str as core::fmt::Debug>::fmt`: the
/// string in double quotes, each character escaped as
/// `char::escape_debug` does. The contract claims only that the result is
/// the same for the same characters; the escaping rules are not stated.
#[verifier::external_body]
pub(crate) fn debug_quoted(s: &str) -> (r: String)
    ensures
        r@ == debug_str(s@),
{
    format!("{s:?}")
}

} // verus!
