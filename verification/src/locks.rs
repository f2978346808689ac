//! Lock files as `burl lock` shows and clears them.
//!
//! A lock is a file named after what it guards: `workflow` (the whole
//! workflow state), `claim` (task selection) or a task identifier.

use crate::cli::LockClearArgs;
use crate::error::BurlError;
use crate::report::{count_where, text_over};
use crate::stamp::{format_utc, utc_text, MAX_STAMP, MIN_STAMP};
use crate::text::{chars_of, decimal, push_decimal, push_str, str_eq, string_from_chars};
use vstd::prelude::*;

verus! {

broadcast use vstd::string::group_string_axioms;

/// What a lock guards.
#[derive(Debug, Clone, Copy, PartialEq, Eq, Structural)]
pub enum LockKind {
    Workflow,
    Task,
    Claim,
}

/// The kind of the lock named `name`.
pub open spec fn kind_of(name: Seq<char>) -> LockKind {
    if name == "workflow"@ {
        LockKind::Workflow
    } else if name == "claim"@ {
        LockKind::Claim
    } else {
        LockKind::Task
    }
}

/// Tells the kind of a lock from its name.
pub fn lock_kind(name: &str) -> (r: LockKind)
    ensures
        r == kind_of(name@),
{
    if str_eq(name, "workflow") {
        LockKind::Workflow
    } else if str_eq(name, "claim") {
        LockKind::Claim
    } else {
        LockKind::Task
    }
}

/// The label of a kind.
pub open spec fn kind_label(k: LockKind) -> Seq<char> {
    match k {
        LockKind::Workflow => "workflow"@,
        LockKind::Task => "task"@,
        LockKind::Claim => "claim"@,
    }
}

/// An active lock with what its file records.
#[derive(Debug, Clone)]
pub struct LockListing {
    /// Lock name.
    pub name: String,
    /// What it guards.
    pub kind: LockKind,
    /// Who holds it.
    pub owner: String,
    /// The holder's process, if recorded.
    pub pid: Option<u32>,
    /// When it was taken (seconds since the epoch).
    pub created_at: i64,
    /// Human-readable age.
    pub age: String,
    /// The action that took it.
    pub action: String,
    /// Whether it is older than the stale threshold.
    pub is_stale: bool,
    /// Path of the lock file.
    pub path: String,
}

/// The details of a lock, each line after `indent`.
pub open spec fn lock_details(l: LockListing, indent: Seq<char>) -> Seq<char> {
    indent + "Owner:      "@ + l.owner@ + "\n"@ + (match l.pid {
        Some(p) => indent + "PID:        "@ + decimal(p as nat) + "\n"@,
        None => Seq::empty(),
    }) + indent + "Created:    "@ + utc_text(l.created_at as int) + "\n"@ + indent + "Age:        "@ + l.age@
        + "\n"@ + indent + "Action:     "@ + l.action@ + "\n"@
}

/// The entry of a lock in `burl lock list`.
pub open spec fn listing_entry(stale_minutes: u32) -> spec_fn(LockListing) -> Seq<char> {
    |l: LockListing|
        "  "@ + l.name@ + " ("@ + kind_label(l.kind) + "):\n"@ + lock_details(l, "    "@) + (if l.is_stale {
            "    Status:     STALE (exceeds "@ + decimal(stale_minutes as nat) + " min threshold)\n"@
        } else {
            Seq::empty()
        }) + "    Path:       "@ + l.path@ + "\n\n"@
}

/// Whether a lock's creation time can be written as a date.
pub open spec fn stamp_ok(l: LockListing) -> bool {
    MIN_STAMP <= l.created_at <= MAX_STAMP
}

/// The text of `burl lock list`.
pub open spec fn lock_list_text(locks: Seq<LockListing>, stale_minutes: u32) -> Seq<char> {
    if locks.len() == 0 {
        "No active locks.\n"@
    } else {
        let stale = count_where(locks, |l: LockListing| l.is_stale);
        "Active locks ("@ + decimal(locks.len()) + "):\n\n"@ + text_over(locks, listing_entry(stale_minutes)) + (
        if stale > 0 {
            "Note: "@ + decimal(stale)
                + " lock(s) are stale. Use `burl lock clear <lock-id> --force` to clear.\n"@
        } else {
            Seq::empty()
        })
    }
}

fn push_kind(out: &mut Vec<char>, k: LockKind)
    ensures
        final(out)@ == old(out)@ + kind_label(k),
{
    match k {
        LockKind::Workflow => push_str(out, "workflow"),
        LockKind::Task => push_str(out, "task"),
        LockKind::Claim => push_str(out, "claim"),
    }
}

fn push_details(out: &mut Vec<char>, l: &LockListing, indent: &str)
    requires
        stamp_ok(*l),
    ensures
        final(out)@ == old(out)@ + lock_details(*l, indent@),
{
    let ghost start = out@;
    push_str(out, indent);
    push_str(out, "Owner:      ");
    push_str(out, l.owner.as_str());
    push_str(out, "\n");
    let ghost s0 = out@;
    match l.pid {
        Some(p) => {
            push_str(out, indent);
            push_str(out, "PID:        ");
            push_decimal(out, p as u64);
            push_str(out, "\n");
        },
        None => {},
    }
    let ghost pid_text = match l.pid {
        Some(p) => indent@ + "PID:        "@ + decimal(p as nat) + "\n"@,
        None => Seq::<char>::empty(),
    };
    assert(out@ =~= s0 + pid_text);
    let ghost s1 = out@;
    push_str(out, indent);
    push_str(out, "Created:    ");
    let c = format_utc(l.created_at);
    push_str(out, c.as_str());
    push_str(out, "\n");
    push_str(out, indent);
    push_str(out, "Age:        ");
    push_str(out, l.age.as_str());
    push_str(out, "\n");
    push_str(out, indent);
    push_str(out, "Action:     ");
    push_str(out, l.action.as_str());
    push_str(out, "\n");
    let ghost rest = indent@ + "Created:    "@ + utc_text(l.created_at as int) + "\n"@ + indent@ + "Age:        "@
        + l.age@ + "\n"@ + indent@ + "Action:     "@ + l.action@ + "\n"@;
    assert(out@ =~= s1 + rest);
    assert(out@ =~= start + lock_details(*l, indent@));
}

fn push_entry(out: &mut Vec<char>, l: &LockListing, stale_minutes: u32)
    requires
        stamp_ok(*l),
    ensures
        final(out)@ == old(out)@ + listing_entry(stale_minutes)(*l),
{
    let ghost start = out@;
    push_str(out, "  ");
    push_str(out, l.name.as_str());
    push_str(out, " (");
    push_kind(out, l.kind);
    push_str(out, "):\n");
    push_details(out, l, "    ");
    let ghost s0 = out@;
    if l.is_stale {
        push_str(out, "    Status:     STALE (exceeds ");
        push_decimal(out, stale_minutes as u64);
        push_str(out, " min threshold)\n");
    }
    let ghost st = if l.is_stale {
        "    Status:     STALE (exceeds "@ + decimal(stale_minutes as nat) + " min threshold)\n"@
    } else {
        Seq::<char>::empty()
    };
    assert(out@ =~= s0 + st);
    push_str(out, "    Path:       ");
    push_str(out, l.path.as_str());
    push_str(out, "\n\n");
    assert(out@ =~= start + listing_entry(stale_minutes)(*l));
}

/// Builds the text of `burl lock list`.
pub fn format_lock_list(locks: &Vec<LockListing>, stale_minutes: u32) -> (r: String)
    requires
        forall|i: int| 0 <= i < locks@.len() ==> stamp_ok(#[trigger] locks@[i]),
    ensures
        r@ == lock_list_text(locks@, stale_minutes),
{
    if locks.len() == 0 {
        return string_from_chars(&chars_of("No active locks.\n"));
    }
    let ghost f = listing_entry(stale_minutes);
    let ghost p = |l: LockListing| l.is_stale;
    let mut out = chars_of("Active locks (");
    push_decimal(&mut out, locks.len() as u64);
    push_str(&mut out, "):\n\n");
    let ghost head = out@;
    let mut stale: u64 = 0;
    let mut i: usize = 0;
    while i < locks.len()
        invariant
            i <= locks@.len(),
            forall|k: int| 0 <= k < locks@.len() ==> stamp_ok(#[trigger] locks@[k]),
            f == listing_entry(stale_minutes),
            p == (|l: LockListing| l.is_stale),
            out@ == head + text_over(locks@.take(i as int), f),
            stale == count_where(locks@.take(i as int), p),
            stale <= i,
        decreases locks@.len() - i,
    {
        assert(locks@.take(i + 1).drop_last() =~= locks@.take(i as int));
        push_entry(&mut out, &locks[i], stale_minutes);
        if locks[i].is_stale {
            stale = stale + 1;
        }
        i = i + 1;
    }
    assert(locks@.take(locks@.len() as int) =~= locks@);
    let ghost body = out@;
    if stale > 0 {
        push_str(&mut out, "Note: ");
        push_decimal(&mut out, stale);
        push_str(&mut out, " lock(s) are stale. Use `burl lock clear <lock-id> --force` to clear.\n");
    }
    let ghost note = if stale > 0 {
        "Note: "@ + decimal(stale as nat) + " lock(s) are stale. Use `burl lock clear <lock-id> --force` to clear.\n"@
    } else {
        Seq::<char>::empty()
    };
    assert(out@ =~= body + note);
    assert(out@ =~= lock_list_text(locks@, stale_minutes));
    string_from_chars(&out)
}

/// What clearing a lock without `--force` is answered.
pub open spec fn clear_refusal(lock_id: Seq<char>) -> Seq<char> {
    "refusing to clear lock without --force flag.\n\nClearing locks can cause data corruption if the lock holder is still active.\nOnly clear locks if you are certain the lock holder has crashed.\n\nTo clear the lock, run:\n  burl lock clear "@
        + lock_id + " --force"@
}

/// Clearing a lock needs `--force`.
pub fn check_lock_clear(args: &LockClearArgs) -> (r: Result<(), BurlError>)
    ensures
        args.force ==> r is Ok,
        !args.force ==> (r matches Err(BurlError::UserError(m)) && m@ == clear_refusal(args.lock_id@)),
{
    if args.force {
        return Ok(());
    }
    let mut m = chars_of(
        "refusing to clear lock without --force flag.\n\nClearing locks can cause data corruption if the lock holder is still active.\nOnly clear locks if you are certain the lock holder has crashed.\n\nTo clear the lock, run:\n  burl lock clear ",
    );
    push_str(&mut m, args.lock_id.as_str());
    push_str(&mut m, " --force");
    Err(BurlError::UserError(string_from_chars(&m)))
}

/// The text reporting a cleared lock.
pub open spec fn cleared_text(l: LockListing) -> Seq<char> {
    "Cleared lock: "@ + l.name@ + "\n\nLock details:\n"@ + lock_details(l, "  "@) + (if l.is_stale {
        "  Status:     was STALE\n"@
    } else {
        Seq::empty()
    }) + "  Path:       "@ + l.path@ + "\n"@
}

/// Builds the text reporting a cleared lock.
pub fn format_cleared_lock(l: &LockListing) -> (r: String)
    requires
        stamp_ok(*l),
    ensures
        r@ == cleared_text(*l),
{
    let mut out = chars_of("Cleared lock: ");
    push_str(&mut out, l.name.as_str());
    push_str(&mut out, "\n\nLock details:\n");
    let ghost head = out@;
    push_details(&mut out, l, "  ");
    let ghost s0 = out@;
    if l.is_stale {
        push_str(&mut out, "  Status:     was STALE\n");
    }
    let ghost st = if l.is_stale {
        "  Status:     was STALE\n"@
    } else {
        Seq::<char>::empty()
    };
    assert(out@ =~= s0 + st);
    push_str(&mut out, "  Path:       ");
    push_str(&mut out, l.path.as_str());
    push_str(&mut out, "\n");
    assert(out@ =~= cleared_text(*l));
    string_from_chars(&out)
}


/// Whether a lock taken at `created` is stale at `now`: its age in whole
/// minutes exceeds `stale_minutes`.
pub open spec fn stale_at(created: int, now: int, stale_minutes: nat) -> bool {
    (now - created) / 60 > stale_minutes
}

/// Tells whether a lock is stale.
pub fn lock_is_stale(created: i64, now: i64, stale_minutes: u32) -> (r: bool)
    ensures
        r == stale_at(created as int, now as int, stale_minutes as nat),
{
    let age: i128 = now as i128 - created as i128;
    if age < 0 {
        return false;
    }
    age / 60 > stale_minutes as i128
}

} // verus!
