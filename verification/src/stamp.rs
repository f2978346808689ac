//! Timestamps: seconds since the Unix epoch, shown as UTC text or as ages.

use crate::text::{decimal, push_decimal, push_str, string_from_chars};
use vstd::prelude::*;

verus! {

/// Earliest timestamp a chrono `DateTime<Utc>` holds (`DateTime::<Utc>::MIN_UTC`,
/// January 1 of year -262143, 00:00:00 UTC).
pub const MIN_STAMP: i64 = -8334601228800;

/// Latest timestamp a chrono `DateTime<Utc>` holds (`DateTime::<Utc>::MAX_UTC`
/// up to the second, December 31 of year 262142, 23:59:59 UTC).
pub const MAX_STAMP: i64 = 8210266876799;

/// What chrono's `format("%Y-%m-%d %H:%M:%S UTC")` writes for the UTC time
/// `secs` seconds after the Unix epoch.
pub uninterp spec fn utc_text(secs: int) -> Seq<char>;

/// Formats a timestamp as `YYYY-MM-DD HH:MM:SS UTC` with chrono
/// (`DateTime::from_timestamp` then `format`). Between `MIN_STAMP` and
/// `MAX_STAMP`, the range of `DateTime<Utc>`, `from_timestamp` always yields
/// a time, so the text is `utc_text(secs)`; the calendar arithmetic itself
/// (years outside 0..=9999 carry a sign) is left unstated.
#[verifier::external_body]
pub fn format_utc(secs: i64) -> (r: String)
    requires
        MIN_STAMP <= secs <= MAX_STAMP,
    ensures
        r@ == utc_text(secs as int),
{
    match chrono::DateTime::from_timestamp(secs, 0) {
        Some(t) => t.format("%Y-%m-%d %H:%M:%S UTC").to_string(),
        None => String::new(),
    }
}

/// Age of `ts` at time `now`, in seconds.
pub open spec fn age(now: int, ts: int) -> int {
    now - ts
}

/// A compact age: `<d>d<h>h` from a day on, `<h>h<m>m` from an hour on,
/// else `<m>m` (never negative).
pub open spec fn age_text(a: int) -> Seq<char> {
    if a >= 86400 {
        decimal((a / 86400) as nat) + "d"@ + decimal(((a / 3600) % 24) as nat) + "h"@
    } else if a >= 3600 {
        decimal((a / 3600) as nat) + "h"@ + decimal(((a / 60) % 60) as nat) + "m"@
    } else if a >= 60 {
        decimal((a / 60) as nat) + "m"@
    } else {
        decimal(0) + "m"@
    }
}

/// Formats how long ago `ts` was at time `now`.
pub fn format_age(now: i64, ts: i64) -> (r: String)
    ensures
        r@ == age_text(age(now as int, ts as int)),
{
    let a: i128 = now as i128 - ts as i128;
    let mut out: Vec<char> = Vec::new();
    if a >= 86400 {
        push_decimal(&mut out, (a / 86400) as u64);
        push_str(&mut out, "d");
        push_decimal(&mut out, ((a / 3600) % 24) as u64);
        push_str(&mut out, "h");
    } else if a >= 3600 {
        push_decimal(&mut out, (a / 3600) as u64);
        push_str(&mut out, "h");
        push_decimal(&mut out, ((a / 60) % 60) as u64);
        push_str(&mut out, "m");
    } else if a >= 60 {
        push_decimal(&mut out, (a / 60) as u64);
        push_str(&mut out, "m");
    } else {
        push_decimal(&mut out, 0);
        push_str(&mut out, "m");
    }
    string_from_chars(&out)
}

/// Whether a task is stalled: it has a timestamp that lies more than
/// `stall_hours` hours before `now`.
pub open spec fn stalled(ts: Option<i64>, now: int, stall_hours: int) -> bool {
    ts matches Some(t) && age(now, t as int) > stall_hours * 3600
}

/// Whether the task stamped `ts` is stalled at `now`.
pub fn is_stalled(ts: Option<i64>, now: i64, stall_hours: i64) -> (r: bool)
    requires
        MIN_STAMP <= now <= MAX_STAMP,
        0 <= stall_hours <= 1_000_000,
        ts matches Some(t) ==> MIN_STAMP <= t <= MAX_STAMP,
    ensures
        r == stalled(ts, now as int, stall_hours as int),
{
    match ts {
        Some(t) => now - t > stall_hours * 3600,
        None => false,
    }
}

} // verus!
