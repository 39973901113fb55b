//! Recognising the DSI panel failure in kernel log (`/dev/kmsg`) records.

use vstd::prelude::*;
use crate::text::{chars_of, contains, contains_chars, find_char, first_index_of, occurs_at};
use crate::cli::arg_views;

verus! {

/// The message part of a raw record: everything after the first `;`
/// (before it are priority, sequence number, timestamp and flags), or the
/// whole line when it has no `;`.
pub open spec fn message_of(raw: Seq<char>) -> Seq<char> {
    match first_index_of(raw, ';') {
        Some(i) => raw.skip(i + 1),
        None => raw,
    }
}

/// Strips the kernel metadata prefix from a raw `/dev/kmsg` record such
/// as `6,1234,56789,-;i915 0000:00:02.0: [drm] *ERROR* DSI link not
/// ready`. Continuation lines (key=value pairs) are not handled.
pub fn extract_message(raw: &str) -> (m: &str)
    ensures
        m@ == message_of(raw@),
{
    let chars = chars_of(raw);
    let n = chars.len();
    match find_char(&chars, ';') {
        Some(idx) => raw.substring_char(idx + 1, n),
        None => raw,
    }
}

/// The primary DSI failure line.
pub open spec fn is_dsi_error_message(message: Seq<char>) -> bool {
    contains(message, "DSI link not ready"@)
}

/// Whether `message` is the primary DSI failure line. The two lines that
/// accompany it in the same burst (payload credits not released, send
/// packet failed with -EBUSY) do not match.
pub fn is_dsi_error(message: &str) -> (r: bool)
    ensures
        r == is_dsi_error_message(message@),
{
    contains_chars(&chars_of(message), &chars_of("DSI link not ready"))
}

/// Index of the last message containing `pattern`, or -1 when none does.
pub open spec fn last_containing(messages: Seq<Seq<char>>, pattern: Seq<char>) -> int
    decreases messages.len(),
{
    if messages.len() == 0 {
        -1
    } else if contains(messages.last(), pattern) {
        messages.len() - 1
    } else {
        last_containing(messages.drop_last(), pattern)
    }
}

/// Whether a kernel log backlog ends with the panel still corrupted: its
/// last DSI failure comes after both its last `reprobe complete` (the
/// boot-time driver reprobe) and its last `PM: suspend exit`, either of
/// which re-enables the panel.
pub open spec fn backlog_needs_repair(messages: Seq<Seq<char>>) -> bool {
    let dsi = last_containing(messages, "DSI link not ready"@);
    dsi >= 0 && dsi > last_containing(messages, "reprobe complete"@) && dsi > last_containing(
        messages,
        "PM: suspend exit"@,
    )
}

proof fn lemma_last_containing_step(messages: Seq<Seq<char>>, pattern: Seq<char>, i: int)
    requires
        0 <= i < messages.len(),
    ensures
        last_containing(messages.take(i + 1), pattern) == if contains(messages[i], pattern) {
            i
        } else {
            last_containing(messages.take(i), pattern)
        },
{
    assert(messages.take(i + 1).drop_last() =~= messages.take(i));
    assert(messages.take(i + 1).last() == messages[i]);
}

/// Decides from the kernel log backlog (message parts, oldest first)
/// whether a DSI failure from before startup was never cleared.
pub fn needs_startup_repair(messages: &[String]) -> (r: bool)
    ensures
        r == backlog_needs_repair(arg_views(messages@)),
{
    let ghost views = arg_views(messages@);
    let dsi_pat = chars_of("DSI link not ready");
    let reprobe_pat = chars_of("reprobe complete");
    let resume_pat = chars_of("PM: suspend exit");
    let mut last_dsi: Option<usize> = None;
    let mut last_reprobe: Option<usize> = None;
    let mut last_resume: Option<usize> = None;
    let mut i: usize = 0;
    assert(views.take(0) =~= Seq::<Seq<char>>::empty());
    while i < messages.len()
        invariant
            i <= messages@.len(),
            views == arg_views(messages@),
            dsi_pat@ == "DSI link not ready"@,
            reprobe_pat@ == "reprobe complete"@,
            resume_pat@ == "PM: suspend exit"@,
            last_containing(views.take(i as int), dsi_pat@) == match last_dsi {
                Some(k) => k as int,
                None => -1,
            },
            last_containing(views.take(i as int), reprobe_pat@) == match last_reprobe {
                Some(k) => k as int,
                None => -1,
            },
            last_containing(views.take(i as int), resume_pat@) == match last_resume {
                Some(k) => k as int,
                None => -1,
            },
        decreases messages@.len() - i,
    {
        let m = chars_of(messages[i].as_str());
        assert(m@ == views[i as int]);
        proof {
            lemma_last_containing_step(views, dsi_pat@, i as int);
            lemma_last_containing_step(views, reprobe_pat@, i as int);
            lemma_last_containing_step(views, resume_pat@, i as int);
        }
        if contains_chars(&m, &dsi_pat) {
            last_dsi = Some(i);
        }
        if contains_chars(&m, &reprobe_pat) {
            last_reprobe = Some(i);
        }
        if contains_chars(&m, &resume_pat) {
            last_resume = Some(i);
        }
        i = i + 1;
    }
    assert(views.take(i as int) =~= views);
    match last_dsi {
        None => false,
        Some(d) => {
            let after_reprobe = match last_reprobe {
                None => true,
                Some(p) => d > p,
            };
            let after_resume = match last_resume {
                None => true,
                Some(s) => d > s,
            };
            after_reprobe && after_resume
        },
    }
}

/// The failure line is recognised wherever "DSI link not ready" occurs
/// in a message, with anything before and after it (such as continuation
/// lines), and only then.
pub proof fn lemma_dsi_error_anywhere(message: Seq<char>, p: Seq<char>, q: Seq<char>)
    ensures
        is_dsi_error_message(p + "DSI link not ready"@ + q),
        is_dsi_error_message(message) <==> exists|a: Seq<char>, b: Seq<char>|
            message == a + "DSI link not ready"@ + b,
{
    let pat = "DSI link not ready"@;
    let m = p + pat + q;
    assert(m.subrange(p.len() as int, (p.len() + pat.len()) as int) =~= pat);
    assert(occurs_at(m, pat, p.len() as int));
    if is_dsi_error_message(message) {
        let i = choose|i: int| occurs_at(message, pat, i);
        let a = message.subrange(0, i);
        let b = message.subrange(i + pat.len(), message.len() as int);
        assert(message =~= a + pat + b);
    }
    if exists|a: Seq<char>, b: Seq<char>| message == a + pat + b {
        let (a, b) = choose|a: Seq<char>, b: Seq<char>| message == a + pat + b;
        assert(message.subrange(a.len() as int, (a.len() + pat.len()) as int) =~= pat);
        assert(occurs_at(message, pat, a.len() as int));
    }
}

/// The message part is what follows the first `;`: for metadata `a`
/// without a `;`, the record `a;b` has message `b` (which may itself hold
/// `;`), and a record without any `;` is its own message.
pub proof fn lemma_message_after_first_semicolon(a: Seq<char>, b: Seq<char>)
    ensures
        (forall|k: int| 0 <= k < a.len() ==> a[k] != ';') ==> message_of(a + seq![';'] + b) == b,
        (forall|k: int| 0 <= k < a.len() ==> a[k] != ';') ==> message_of(a) == a,
{
    let raw = a + seq![';'] + b;
    if forall|k: int| 0 <= k < a.len() ==> a[k] != ';' {
        assert(raw[a.len() as int] == ';');
        let i = choose|i: int|
            0 <= i < raw.len() && raw[i] == ';' && forall|k: int| 0 <= k < i ==> raw[k] != ';';
        assert(i == a.len()) by {
            if i < a.len() {
                assert(raw[i] == a[i]);
            } else if i > a.len() {
                assert(raw[a.len() as int] == ';');
            }
        }
        assert(raw.skip((a.len() + 1) as int) =~= b);
        assert(!(exists|i: int| 0 <= i < a.len() && a[i] == ';'));
    }
}

/// What a message contains, one position at a time.
proof fn lemma_last_containing_is_last(messages: Seq<Seq<char>>, pattern: Seq<char>)
    ensures
        -1 <= last_containing(messages, pattern) < messages.len(),
        last_containing(messages, pattern) >= 0 ==> contains(
            messages[last_containing(messages, pattern)],
            pattern,
        ),
        forall|j: int|
            last_containing(messages, pattern) < j < messages.len() ==> !contains(
                #[trigger] messages[j],
                pattern,
            ),
    decreases messages.len(),
{
    if messages.len() > 0 && !contains(messages.last(), pattern) {
        let d = messages.drop_last();
        lemma_last_containing_is_last(d, pattern);
        assert forall|j: int| last_containing(messages, pattern) < j < messages.len() implies !contains(
            #[trigger] messages[j],
            pattern,
        ) by {
            if j < messages.len() - 1 {
                assert(messages[j] == d[j]);
            }
        }
    }
}

/// The startup rule, stated directly: repair is needed exactly when some
/// message holds "DSI link not ready" and no message from it on holds
/// "reprobe complete" or "PM: suspend exit". A message that only
/// mentions a reprobe being forced, without "reprobe complete", clears
/// nothing.
pub proof fn lemma_startup_repair_rule(messages: Seq<Seq<char>>)
    ensures
        backlog_needs_repair(messages) <==> exists|i: int|
            0 <= i < messages.len() && contains(#[trigger] messages[i], "DSI link not ready"@)
                && forall|j: int|
                i <= j < messages.len() ==> !contains(#[trigger] messages[j], "reprobe complete"@)
                    && !contains(messages[j], "PM: suspend exit"@),
{
    let dsi_p = "DSI link not ready"@;
    let rep_p = "reprobe complete"@;
    let pm_p = "PM: suspend exit"@;
    lemma_last_containing_is_last(messages, dsi_p);
    lemma_last_containing_is_last(messages, rep_p);
    lemma_last_containing_is_last(messages, pm_p);
    let d = last_containing(messages, dsi_p);
    let r = last_containing(messages, rep_p);
    let s = last_containing(messages, pm_p);
    if backlog_needs_repair(messages) {
        assert(contains(messages[d], dsi_p));
        assert forall|j: int| d <= j < messages.len() implies !contains(
            #[trigger] messages[j],
            rep_p,
        ) && !contains(messages[j], pm_p) by {}
    }
    if exists|i: int|
        0 <= i < messages.len() && contains(#[trigger] messages[i], dsi_p) && forall|j: int|
            i <= j < messages.len() ==> !contains(#[trigger] messages[j], rep_p) && !contains(
                messages[j],
                pm_p,
            ) {
        let i = choose|i: int|
            0 <= i < messages.len() && contains(#[trigger] messages[i], dsi_p) && forall|j: int|
                i <= j < messages.len() ==> !contains(#[trigger] messages[j], rep_p) && !contains(
                    messages[j],
                    pm_p,
                );
        assert(d >= i) by {
            if d < i {
                assert(!contains(messages[i], dsi_p));
            }
        }
        assert(r < i) by {
            if r >= i {
                assert(contains(messages[r], rep_p));
            }
        }
        assert(s < i) by {
            if s >= i {
                assert(contains(messages[s], pm_p));
            }
        }
    }
}

} // verus!
