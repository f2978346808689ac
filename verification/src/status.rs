//! What the status summary and the monitor highlight.

use crate::text::{chars_of, push_str, slice_chars, string_from_chars};
use vstd::prelude::*;

verus! {

broadcast use vstd::string::group_string_axioms;

/// Hours after which a task in DOING counts as stalled.
pub const DOING_STALL_HOURS: i64 = 24;

/// Hours after which a task in QA counts as stalled.
pub const QA_STALL_HOURS: i64 = 24;

/// A title shortened to `max_chars` characters: the title when it fits, else
/// its first `max_chars - 3` characters (none when fewer than 3) and `...`.
pub open spec fn short_title(title: Seq<char>, max_chars: nat) -> Seq<char> {
    if title.len() <= max_chars {
        title
    } else if max_chars >= 3 {
        title.take(max_chars - 3) + "..."@
    } else {
        "..."@
    }
}

/// Shortens a title for display.
pub fn truncate_title(title: &str, max_chars: usize) -> (r: String)
    ensures
        r@ == short_title(title@, max_chars as nat),
{
    let t = chars_of(title);
    if t.len() <= max_chars {
        return string_from_chars(&t);
    }
    let take = if max_chars >= 3 {
        max_chars - 3
    } else {
        0
    };
    let mut out = slice_chars(&t, 0, take);
    push_str(&mut out, "...");
    assert(t@.subrange(0, take as int) =~= t@.take(take as int));
    assert(max_chars < 3 ==> t@.take(0) + "..."@ =~= "..."@);
    string_from_chars(&out)
}

/// Whether a task in QA is near its last attempt: its attempts reach one
/// less than the maximum (or the maximum itself when that is 0).
pub fn near_max_attempts(qa_attempts: u32, qa_max_attempts: u32) -> (r: bool)
    ensures
        r == (qa_attempts >= if qa_max_attempts > 0 { qa_max_attempts - 1 } else { 0 }),
{
    qa_attempts >= qa_max_attempts.saturating_sub(1)
}

/// A shortened title has at most `max_chars` characters (for at least 3).
pub proof fn lemma_short_title_fits(title: Seq<char>, max_chars: nat)
    requires
        max_chars >= 3,
    ensures
        short_title(title, max_chars).len() <= max_chars,
{
    reveal_strlit("...");
}

} // verus!
