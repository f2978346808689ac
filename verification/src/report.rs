//! The text of the status summary, the monitor dashboard and the task view.
//!
//! Each display is a pure function of what the workflow state holds (task
//! rows, active locks, recent events) and the current time; the caller prints
//! the returned text as it is.

use crate::stamp::{age, age_text, format_age, format_utc, stalled, utc_text, MAX_STAMP, MIN_STAMP};
use crate::status::{short_title, truncate_title, DOING_STALL_HOURS, QA_STALL_HOURS};
use crate::context::{join, join_strings, lines, split_lines, views};
use crate::keyed::{chars_lt, lemma_lex_total, lemma_lex_trans, lex_lt};
use crate::error::BurlError;
use crate::task::{find_task, TaskFile, TaskFrontmatter, TaskIndex, TaskInfo};
use crate::text::{
    chars_of, decimal, digit, digit_char, push_all, push_decimal, push_str, str_eq, string_from_chars, trim,
    trim_chars,
};
use vstd::prelude::*;

verus! {

broadcast use vstd::string::group_string_axioms;

// ---------------------------------------------------------------------------
// Inputs
// ---------------------------------------------------------------------------

/// One task as the displays see it: where it lies and what its file says.
#[derive(Debug, Clone)]
pub struct TaskRow {
    /// Task identifier.
    pub id: String,
    /// Bucket holding the task file.
    pub bucket: String,
    /// Task title.
    pub title: String,
    /// Priority level.
    pub priority: String,
    /// Who claimed the task.
    pub assigned_to: Option<String>,
    /// Number of QA rejections so far.
    pub qa_attempts: u32,
    /// When work started (seconds since the epoch).
    pub started_at: Option<i64>,
    /// When the task was submitted to QA (seconds since the epoch).
    pub submitted_at: Option<i64>,
    /// Whether the task file could be read (when not, only `id` and `bucket` hold).
    pub loaded: bool,
}

impl TaskRow {
    /// The row of a task whose file could not be read: its title says so and
    /// its priority is unknown.
    pub fn unreadable(id: &str, bucket: &str) -> (r: TaskRow)
        ensures
            r.id@ == id@,
            r.bucket@ == bucket@,
            r.title@ == "(failed to load task file)"@,
            r.priority@ == "?"@,
            r.assigned_to is None,
            r.qa_attempts == 0,
            r.started_at is None,
            r.submitted_at is None,
            !r.loaded,
    {
        TaskRow {
            id: string_from_chars(&chars_of(id)),
            bucket: string_from_chars(&chars_of(bucket)),
            title: string_from_chars(&chars_of("(failed to load task file)")),
            priority: string_from_chars(&chars_of("?")),
            assigned_to: None,
            qa_attempts: 0,
            started_at: None,
            submitted_at: None,
            loaded: false,
        }
    }
}

/// An active lock as listed by the lock store.
#[derive(Debug, Clone)]
pub struct ActiveLock {
    /// Lock name (`workflow`, `claim`, or a task ID).
    pub name: String,
    /// Who holds the lock.
    pub owner: String,
    /// Human-readable age of the lock.
    pub age: String,
    /// The action that took the lock.
    pub action: String,
    /// Whether it is a per-task lock.
    pub is_task: bool,
    /// Whether the lock is older than the stale threshold.
    pub is_stale: bool,
}

// ---------------------------------------------------------------------------
// Building blocks
// ---------------------------------------------------------------------------

/// The concatenation of `f` over `items`, in order.
pub open spec fn text_over<T>(items: Seq<T>, f: spec_fn(T) -> Seq<char>) -> Seq<char>
    decreases items.len(),
{
    if items.len() == 0 {
        Seq::empty()
    } else {
        text_over(items.drop_last(), f) + f(items.last())
    }
}

/// How many of `items` satisfy `p`.
pub open spec fn count_where<T>(items: Seq<T>, p: spec_fn(T) -> bool) -> nat
    decreases items.len(),
{
    if items.len() == 0 {
        0
    } else {
        count_where(items.drop_last(), p) + if p(items.last()) {
            1nat
        } else {
            0nat
        }
    }
}

proof fn lemma_text_over_step<T>(items: Seq<T>, i: int, f: spec_fn(T) -> Seq<char>)
    requires
        0 <= i < items.len(),
    ensures
        text_over(items.take(i + 1), f) == text_over(items.take(i), f) + f(items[i]),
{
    assert(items.take(i + 1).drop_last() =~= items.take(i));
}

proof fn lemma_count_step<T>(items: Seq<T>, i: int, p: spec_fn(T) -> bool)
    requires
        0 <= i < items.len(),
    ensures
        count_where(items.take(i + 1), p) == count_where(items.take(i), p) + if p(items[i]) {
            1nat
        } else {
            0nat
        },
{
    assert(items.take(i + 1).drop_last() =~= items.take(i));
}

proof fn lemma_count_bound<T>(items: Seq<T>, p: spec_fn(T) -> bool)
    ensures
        count_where(items, p) <= items.len(),
    decreases items.len(),
{
    if items.len() > 0 {
        lemma_count_bound(items.drop_last(), p);
    }
}

/// `n` spaces.
pub open spec fn spaces(n: nat) -> Seq<char> {
    Seq::new(n, |i: int| ' ')
}

/// `s` padded with spaces on the right to `w` characters (`{:w}`).
pub open spec fn pad_right(s: Seq<char>, w: nat) -> Seq<char> {
    if s.len() < w {
        s + spaces((w - s.len()) as nat)
    } else {
        s
    }
}

/// `s` padded with spaces on the left to `w` characters (`{:>w}`).
pub open spec fn pad_left(s: Seq<char>, w: nat) -> Seq<char> {
    if s.len() < w {
        spaces((w - s.len()) as nat) + s
    } else {
        s
    }
}

fn push_spaces(out: &mut Vec<char>, n: usize)
    ensures
        final(out)@ == old(out)@ + spaces(n as nat),
{
    let mut k: usize = 0;
    while k < n
        invariant
            k <= n,
            out@ == old(out)@ + spaces(k as nat),
        decreases n - k,
    {
        out.push(' ');
        k = k + 1;
        assert(out@ =~= old(out)@ + spaces(k as nat));
    }
}

/// Appends `s` padded on the right to `w` characters.
fn push_pad_right(out: &mut Vec<char>, s: &str, w: usize)
    ensures
        final(out)@ == old(out)@ + pad_right(s@, w as nat),
{
    let cs = chars_of(s);
    push_all(out, &cs);
    if cs.len() < w {
        push_spaces(out, w - cs.len());
        assert(out@ =~= old(out)@ + pad_right(s@, w as nat));
    }
}

/// Appends the decimal form of `n` padded on the left to `w` characters.
fn push_decimal_pad_left(out: &mut Vec<char>, n: u64, w: usize)
    ensures
        final(out)@ == old(out)@ + pad_left(decimal(n as nat), w as nat),
{
    let mut d: Vec<char> = Vec::new();
    push_decimal(&mut d, n);
    assert(d@ =~= decimal(n as nat));
    if d.len() < w {
        push_spaces(out, w - d.len());
    }
    push_all(out, &d);
    assert(out@ =~= old(out)@ + pad_left(decimal(n as nat), w as nat));
}

/// A bucket line of the summaries: `  <label:8> <count:>3>`.
#[verifier::opaque]
pub open spec fn count_line(label: Seq<char>, n: nat) -> Seq<char> {
    "  "@ + pad_right(label, 8) + " "@ + pad_left(decimal(n), 3)
}

fn push_count_line(out: &mut Vec<char>, label: &str, n: u64)
    ensures
        final(out)@ == old(out)@ + count_line(label@, n as nat),
{
    push_str(out, "  ");
    push_pad_right(out, label, 8);
    push_str(out, " ");
    push_decimal_pad_left(out, n, 3);
    reveal(count_line);
    assert(out@ =~= old(out)@ + count_line(label@, n as nat));
}

/// Whether a row lies in `bucket`.
pub open spec fn in_bucket(bucket: Seq<char>) -> spec_fn(TaskRow) -> bool {
    |r: TaskRow| r.bucket@ == bucket
}

/// Counts the rows in `bucket`.
pub fn count_in_bucket(rows: &Vec<TaskRow>, bucket: &str) -> (r: u64)
    ensures
        r == count_where(rows@, in_bucket(bucket@)),
{
    let ghost p = in_bucket(bucket@);
    let mut n: u64 = 0;
    let mut i: usize = 0;
    while i < rows.len()
        invariant
            i <= rows@.len(),
            p == in_bucket(bucket@),
            n == count_where(rows@.take(i as int), p),
        decreases rows@.len() - i,
    {
        proof {
            lemma_count_step(rows@, i as int, p);
            lemma_count_bound(rows@.take(i as int), p);
        }
        if str_eq(rows[i].bucket.as_str(), bucket) {
            n = n + 1;
        }
        i = i + 1;
    }
    assert(rows@.take(rows@.len() as int) =~= rows@);
    n
}


// ---------------------------------------------------------------------------
// Status summary
// ---------------------------------------------------------------------------

/// How many rows lie in `bucket`.
pub open spec fn bucket_count(rows: Seq<TaskRow>, bucket: Seq<char>) -> nat {
    count_where(rows, in_bucket(bucket))
}

/// Tasks across the five buckets.
pub open spec fn total_count(rows: Seq<TaskRow>) -> nat {
    bucket_count(rows, "READY"@) + bucket_count(rows, "DOING"@) + bucket_count(rows, "QA"@)
        + bucket_count(rows, "DONE"@) + bucket_count(rows, "BLOCKED"@)
}

/// The bucket table for the given counts: one line per bucket, a rule, and
/// the total.
pub open spec fn counts_text(ready: nat, doing: nat, qa: nat, done: nat, blocked: nat) -> Seq<char> {
    count_line("READY"@, ready) + "\n"@ + count_line("DOING"@, doing) + "\n"@ + count_line("QA"@, qa)
        + "\n"@ + count_line("DONE"@, done) + "\n"@ + count_line("BLOCKED"@, blocked) + "\n"@
        + "  --------\n"@ + count_line("Total"@, ready + doing + qa + done + blocked) + "\n"@
}

/// The bucket table of `rows`.
pub open spec fn buckets_text(rows: Seq<TaskRow>) -> Seq<char> {
    counts_text(
        bucket_count(rows, "READY"@),
        bucket_count(rows, "DOING"@),
        bucket_count(rows, "QA"@),
        bucket_count(rows, "DONE"@),
        bucket_count(rows, "BLOCKED"@),
    )
}

/// The counts of the five buckets, in order.
pub struct BucketCounts {
    pub ready: u64,
    pub doing: u64,
    pub qa: u64,
    pub done: u64,
    pub blocked: u64,
}

impl BucketCounts {
    pub open spec fn total(self) -> nat {
        (self.ready + self.doing + self.qa + self.done + self.blocked) as nat
    }
}

/// Counts the rows of each bucket.
pub fn bucket_counts(rows: &Vec<TaskRow>) -> (c: BucketCounts)
    ensures
        c.ready == bucket_count(rows@, "READY"@),
        c.doing == bucket_count(rows@, "DOING"@),
        c.qa == bucket_count(rows@, "QA"@),
        c.done == bucket_count(rows@, "DONE"@),
        c.blocked == bucket_count(rows@, "BLOCKED"@),
        c.total() == total_count(rows@),
        c.total() <= rows@.len(),
{
    let c = BucketCounts {
        ready: count_in_bucket(rows, "READY"),
        doing: count_in_bucket(rows, "DOING"),
        qa: count_in_bucket(rows, "QA"),
        done: count_in_bucket(rows, "DONE"),
        blocked: count_in_bucket(rows, "BLOCKED"),
    };
    proof {
        lemma_count_bound(rows@, in_bucket("READY"@));
        lemma_count_bound(rows@, in_bucket("DOING"@));
        lemma_count_bound(rows@, in_bucket("QA"@));
        lemma_count_bound(rows@, in_bucket("DONE"@));
        lemma_count_bound(rows@, in_bucket("BLOCKED"@));
        lemma_buckets_count_each_task_once(rows@);
    }
    c
}

/// Whether a row lies in one of the five buckets.
pub open spec fn in_known_bucket(r: TaskRow) -> bool {
    r.bucket@ == "READY"@ || r.bucket@ == "DOING"@ || r.bucket@ == "QA"@ || r.bucket@ == "DONE"@
        || r.bucket@ == "BLOCKED"@
}

/// The bucket table counts every task once: a row lies in at most one
/// bucket, so the five counts add up to at most the number of rows, and to
/// exactly that number when every row lies in one of the five buckets.
pub proof fn lemma_buckets_count_each_task_once(rows: Seq<TaskRow>)
    ensures
        total_count(rows) <= rows.len(),
        (forall|i: int| 0 <= i < rows.len() ==> in_known_bucket(#[trigger] rows[i])) ==> total_count(rows)
            == rows.len(),
    decreases rows.len(),
{
    reveal_strlit("READY");
    reveal_strlit("DOING");
    reveal_strlit("QA");
    reveal_strlit("DONE");
    reveal_strlit("BLOCKED");
    if rows.len() > 0 {
        let init = rows.drop_last();
        let b = rows.last().bucket@;
        lemma_buckets_count_each_task_once(init);
        assert(bucket_count(rows, "READY"@) == bucket_count(init, "READY"@) + if b == "READY"@ { 1nat } else { 0nat });
        assert(bucket_count(rows, "DOING"@) == bucket_count(init, "DOING"@) + if b == "DOING"@ { 1nat } else { 0nat });
        assert(bucket_count(rows, "QA"@) == bucket_count(init, "QA"@) + if b == "QA"@ { 1nat } else { 0nat });
        assert(bucket_count(rows, "DONE"@) == bucket_count(init, "DONE"@) + if b == "DONE"@ { 1nat } else { 0nat });
        assert(bucket_count(rows, "BLOCKED"@) == bucket_count(init, "BLOCKED"@) + if b == "BLOCKED"@ { 1nat } else { 0nat });
        assert("READY"@[0] == 'R' && "DOING"@[0] == 'D' && "DOING"@[2] == 'I' && "DONE"@[2] == 'N');
        assert("READY"@ != "DOING"@ && "READY"@ != "QA"@ && "READY"@ != "DONE"@ && "READY"@ != "BLOCKED"@);
        assert("DOING"@ != "QA"@ && "DOING"@ != "DONE"@ && "DOING"@ != "BLOCKED"@);
        assert("QA"@.len() == 2 && "DONE"@.len() == 4 && "BLOCKED"@.len() == 7);
        assert("QA"@ != "DONE"@ && "QA"@ != "BLOCKED"@ && "DONE"@ != "BLOCKED"@);
        if forall|i: int| 0 <= i < rows.len() ==> in_known_bucket(#[trigger] rows[i]) {
            assert forall|i: int| 0 <= i < init.len() implies in_known_bucket(#[trigger] init[i]) by {
                assert(init[i] == rows[i]);
            }
            assert(in_known_bucket(rows[rows.len() - 1]));
        }
    }
}

fn push_count_line_nl(out: &mut Vec<char>, label: &str, n: u64)
    ensures
        final(out)@ == old(out)@ + (count_line(label@, n as nat) + "\n"@),
{
    let ghost start = out@;
    push_count_line(out, label, n);
    push_str(out, "\n");
    assert(out@ =~= start + (count_line(label@, n as nat) + "\n"@));
}

/// Appends the bucket table for the counts `c`.
fn push_buckets(out: &mut Vec<char>, c: &BucketCounts)
    requires
        c.total() <= u64::MAX,
    ensures
        final(out)@ == old(out)@ + counts_text(
            c.ready as nat,
            c.doing as nat,
            c.qa as nat,
            c.done as nat,
            c.blocked as nat,
        ),
{
    let ghost start = out@;
    push_count_line_nl(out, "READY", c.ready);
    let ghost s1 = out@;
    push_count_line_nl(out, "DOING", c.doing);
    let ghost s2 = out@;
    push_count_line_nl(out, "QA", c.qa);
    let ghost s3 = out@;
    push_count_line_nl(out, "DONE", c.done);
    let ghost s4 = out@;
    push_count_line_nl(out, "BLOCKED", c.blocked);
    let ghost s5 = out@;
    push_str(out, "  --------\n");
    let ghost s6 = out@;
    let total: u64 = c.ready + c.doing + c.qa + c.done + c.blocked;
    push_count_line_nl(out, "Total", total);
    let ghost b1 = count_line("READY"@, c.ready as nat) + "\n"@;
    let ghost b2 = count_line("DOING"@, c.doing as nat) + "\n"@;
    let ghost b3 = count_line("QA"@, c.qa as nat) + "\n"@;
    let ghost b4 = count_line("DONE"@, c.done as nat) + "\n"@;
    let ghost b5 = count_line("BLOCKED"@, c.blocked as nat) + "\n"@;
    let ghost t = count_line("Total"@, total as nat) + "\n"@;
    assert(s2 =~= start + (b1 + b2));
    assert(s4 =~= start + (b1 + b2) + (b3 + b4));
    assert(s6 =~= start + (b1 + b2) + (b3 + b4) + (b5 + "  --------\n"@));
    assert(out@ =~= start + counts_text(
        c.ready as nat,
        c.doing as nat,
        c.qa as nat,
        c.done as nat,
        c.blocked as nat,
    ));
}

/// ` [STALE]` for a stale lock, else nothing.
pub open spec fn stale_marker(stale: bool) -> Seq<char> {
    if stale {
        " [STALE]"@
    } else {
        Seq::empty()
    }
}

/// The highlight line of a task lock.
pub open spec fn status_lock_line(l: ActiveLock) -> Seq<char> {
    "    - "@ + l.name@ + " (by "@ + l.owner@ + ", "@ + l.age@ + " ago, action: "@ + l.action@ + ")"@
        + stale_marker(l.is_stale) + "\n"@
}

/// Whether a lock is a task lock.
pub open spec fn is_task_lock() -> spec_fn(ActiveLock) -> bool {
    |l: ActiveLock| l.is_task
}

/// Whether a lock is stale.
pub open spec fn is_stale_lock() -> spec_fn(ActiveLock) -> bool {
    |l: ActiveLock| l.is_stale
}

/// The lines of the task locks (nothing for other locks).
pub open spec fn task_lock_lines() -> spec_fn(ActiveLock) -> Seq<char> {
    |l: ActiveLock|
        if l.is_task {
            status_lock_line(l)
        } else {
            Seq::empty()
        }
}

/// The task-lock highlight: a count and one line per task lock.
pub open spec fn locks_section(locks: Seq<ActiveLock>) -> Seq<char> {
    let n = count_where(locks, is_task_lock());
    if n == 0 {
        Seq::empty()
    } else {
        "  "@ + decimal(n) + " task(s) currently locked:\n"@ + text_over(locks, task_lock_lines())
    }
}

/// The stale-lock highlight, shown only when no task lock is.
pub open spec fn stale_section(locks: Seq<ActiveLock>, stale_minutes: nat) -> Seq<char> {
    let n = count_where(locks, is_stale_lock());
    if n > 0 && count_where(locks, is_task_lock()) == 0 {
        "  "@ + decimal(n) + " stale lock(s) detected (older than "@ + decimal(stale_minutes)
            + " minutes)\n"@
    } else {
        Seq::empty()
    }
}

/// Counts the locks that satisfy `task` (task locks) or else stale ones.
fn count_locks(locks: &Vec<ActiveLock>, task: bool) -> (n: u64)
    ensures
        n == count_where(locks@, if task { is_task_lock() } else { is_stale_lock() }),
        n <= locks@.len(),
{
    let ghost p = if task { is_task_lock() } else { is_stale_lock() };
    let mut n: u64 = 0;
    let mut i: usize = 0;
    while i < locks.len()
        invariant
            i <= locks@.len(),
            p == (if task { is_task_lock() } else { is_stale_lock() }),
            n == count_where(locks@.take(i as int), p),
            n <= i,
        decreases locks@.len() - i,
    {
        proof {
            lemma_count_step(locks@, i as int, p);
        }
        let hit = if task { locks[i].is_task } else { locks[i].is_stale };
        if hit {
            n = n + 1;
        }
        i = i + 1;
    }
    assert(locks@.take(locks@.len() as int) =~= locks@);
    n
}

fn push_status_lock_line(out: &mut Vec<char>, l: &ActiveLock)
    ensures
        final(out)@ == old(out)@ + status_lock_line(*l),
{
    let ghost start = out@;
    push_str(out, "    - ");
    push_str(out, l.name.as_str());
    push_str(out, " (by ");
    push_str(out, l.owner.as_str());
    push_str(out, ", ");
    push_str(out, l.age.as_str());
    push_str(out, " ago, action: ");
    push_str(out, l.action.as_str());
    push_str(out, ")");
    let ghost mid = out@;
    assert(mid =~= start + ("    - "@ + l.name@ + " (by "@ + l.owner@ + ", "@ + l.age@ + " ago, action: "@
        + l.action@ + ")"@));
    if l.is_stale {
        push_str(out, " [STALE]");
    } else {
        assert(out@ =~= mid + Seq::<char>::empty());
    }
    push_str(out, "\n");
    assert(out@ =~= start + status_lock_line(*l));
}

/// Appends the task-lock and stale-lock highlights.
fn push_lock_highlights(out: &mut Vec<char>, locks: &Vec<ActiveLock>, stale_minutes: u32)
    ensures
        final(out)@ == old(out)@ + locks_section(locks@) + stale_section(locks@, stale_minutes as nat),
{
    let n = count_locks(locks, true);
    let ghost f = task_lock_lines();
    if n > 0 {
        push_str(out, "  ");
        push_decimal(out, n);
        push_str(out, " task(s) currently locked:\n");
        let ghost start = out@;
        let mut i: usize = 0;
        while i < locks.len()
            invariant
                i <= locks@.len(),
                f == task_lock_lines(),
                out@ == start + text_over(locks@.take(i as int), f),
            decreases locks@.len() - i,
        {
            proof {
                lemma_text_over_step(locks@, i as int, f);
            }
            if locks[i].is_task {
                push_status_lock_line(out, &locks[i]);
            }
            assert(out@ =~= start + text_over(locks@.take(i + 1), f));
            i = i + 1;
        }
        assert(locks@.take(locks@.len() as int) =~= locks@);
    }
    let ghost mid = out@;
    assert(mid =~= old(out)@ + locks_section(locks@));
    let s = count_locks(locks, false);
    if s > 0 && n == 0 {
        push_str(out, "  ");
        push_decimal(out, s);
        push_str(out, " stale lock(s) detected (older than ");
        push_decimal(out, stale_minutes as u64);
        push_str(out, " minutes)\n");
    }
    assert(out@ =~= old(out)@ + locks_section(locks@) + stale_section(locks@, stale_minutes as nat));
}


/// `max - 1`, or 0 when `max` is 0.
pub open spec fn one_less(max: u32) -> nat {
    if max > 0 {
        (max - 1) as nat
    } else {
        0
    }
}

/// Whether a row is a readable QA task near its last attempt.
pub open spec fn near_max_row(max: u32) -> spec_fn(TaskRow) -> bool {
    |r: TaskRow| r.bucket@ == "QA"@ && r.loaded && r.qa_attempts >= one_less(max)
}

/// The highlight line of a task near its last attempt.
pub open spec fn near_max_lines(max: u32) -> spec_fn(TaskRow) -> Seq<char> {
    |r: TaskRow|
        if near_max_row(max)(r) {
            "    - "@ + r.id@ + " ("@ + decimal(r.qa_attempts as nat) + "/"@ + decimal(max as nat)
                + " attempts)\n"@
        } else {
            Seq::empty()
        }
}

/// The near-max-attempts highlight.
pub open spec fn near_max_section(rows: Seq<TaskRow>, max: u32) -> Seq<char> {
    let n = count_where(rows, near_max_row(max));
    if n == 0 {
        Seq::empty()
    } else {
        "  "@ + decimal(n) + " task(s) in QA near max attempts ("@ + decimal(max as nat) + "):\n"@
            + text_over(rows, near_max_lines(max))
    }
}

/// The timestamp that decides whether a row stalls: `started_at` in DOING,
/// `submitted_at` in QA.
pub open spec fn stamp_of(r: TaskRow, doing: bool) -> Option<i64> {
    if doing {
        r.started_at
    } else {
        r.submitted_at
    }
}

/// The bucket watched for stalls.
pub open spec fn watched_bucket(doing: bool) -> Seq<char> {
    if doing {
        "DOING"@
    } else {
        "QA"@
    }
}

/// The stall threshold of the watched bucket, in hours.
pub open spec fn stall_hours(doing: bool) -> int {
    if doing {
        DOING_STALL_HOURS as int
    } else {
        QA_STALL_HOURS as int
    }
}

/// Whether a row is a readable task of the watched bucket that stalls at `now`.
pub open spec fn stalled_row(doing: bool, now: int) -> spec_fn(TaskRow) -> bool {
    |r: TaskRow|
        r.bucket@ == watched_bucket(doing) && r.loaded && stalled(stamp_of(r, doing), now, stall_hours(doing))
}

/// Whole hours from `ts` to `now`.
pub open spec fn hours_since(now: int, ts: int) -> nat {
    ((now - ts) / 3600) as nat
}

/// What a stalled task was: `started` (DOING) or `submitted` (QA).
pub open spec fn stall_verb(doing: bool) -> Seq<char> {
    if doing {
        "started"@
    } else {
        "submitted"@
    }
}

/// The highlight line of a stalled task.
pub open spec fn stalled_lines(doing: bool, now: int) -> spec_fn(TaskRow) -> Seq<char> {
    |r: TaskRow|
        if stalled_row(doing, now)(r) {
            "    - "@ + r.id@ + " ("@ + stall_verb(doing) + " "@ + decimal(
                hours_since(now, stamp_of(r, doing)->0 as int),
            ) + "h ago)\n"@
        } else {
            Seq::empty()
        }
}

/// The stalled-task highlight of the watched bucket.
pub open spec fn stalled_section(rows: Seq<TaskRow>, doing: bool, now: int) -> Seq<char> {
    let n = count_where(rows, stalled_row(doing, now));
    if n == 0 {
        Seq::empty()
    } else {
        "  "@ + decimal(n) + " task(s) in "@ + watched_bucket(doing) + " stalled ("@ + stall_verb(doing)
            + " > "@ + decimal(stall_hours(doing) as nat) + "h ago):\n"@ + text_over(
            rows,
            stalled_lines(doing, now),
        )
    }
}

fn near_max_test(r: &TaskRow, max: u32) -> (b: bool)
    ensures
        b == near_max_row(max)(*r),
{
    str_eq(r.bucket.as_str(), "QA") && r.loaded && r.qa_attempts >= max.saturating_sub(1)
}

/// Whether a row stalls, and the whole hours since its stamp when it does.
fn stall_test(r: &TaskRow, doing: bool, now: i64) -> (res: (bool, u64))
    ensures
        res.0 == stalled_row(doing, now as int)(*r),
        res.0 ==> res.1 == hours_since(now as int, stamp_of(*r, doing)->0 as int),
{
    let in_b = if doing {
        str_eq(r.bucket.as_str(), "DOING")
    } else {
        str_eq(r.bucket.as_str(), "QA")
    };
    let stamp = if doing {
        r.started_at
    } else {
        r.submitted_at
    };
    let hours: i64 = if doing {
        DOING_STALL_HOURS
    } else {
        QA_STALL_HOURS
    };
    match stamp {
        Some(t) => {
            let a: i128 = now as i128 - t as i128;
            if in_b && r.loaded && a > (hours as i128) * 3600 {
                let h: i128 = a / 3600;
                (true, h as u64)
            } else {
                (false, 0)
            }
        },
        None => (false, 0),
    }
}

/// Appends the near-max-attempts highlight.
fn push_near_max(out: &mut Vec<char>, rows: &Vec<TaskRow>, max: u32)
    ensures
        final(out)@ == old(out)@ + near_max_section(rows@, max),
{
    let ghost start = out@;
    let ghost p = near_max_row(max);
    let ghost f = near_max_lines(max);
    let mut n: u64 = 0;
    let mut i: usize = 0;
    while i < rows.len()
        invariant
            i <= rows@.len(),
            p == near_max_row(max),
            n == count_where(rows@.take(i as int), p),
            n <= i,
        decreases rows@.len() - i,
    {
        proof {
            lemma_count_step(rows@, i as int, p);
        }
        if near_max_test(&rows[i], max) {
            n = n + 1;
        }
        i = i + 1;
    }
    assert(rows@.take(rows@.len() as int) =~= rows@);
    if n > 0 {
        push_str(out, "  ");
        push_decimal(out, n);
        push_str(out, " task(s) in QA near max attempts (");
        push_decimal(out, max as u64);
        push_str(out, "):\n");
        let ghost head = out@;
        let mut j: usize = 0;
        while j < rows.len()
            invariant
                j <= rows@.len(),
                f == near_max_lines(max),
                out@ == head + text_over(rows@.take(j as int), f),
            decreases rows@.len() - j,
        {
            proof {
                lemma_text_over_step(rows@, j as int, f);
            }
            let r = &rows[j];
            let ghost before = out@;
            if near_max_test(r, max) {
                push_str(out, "    - ");
                push_str(out, r.id.as_str());
                push_str(out, " (");
                push_decimal(out, r.qa_attempts as u64);
                push_str(out, "/");
                push_decimal(out, max as u64);
                push_str(out, " attempts)\n");
            }
            assert(out@ =~= before + f(rows@[j as int]));
            j = j + 1;
        }
        assert(out@ =~= start + near_max_section(rows@, max));
    } else {
        assert(out@ =~= start + near_max_section(rows@, max));
    }
}

/// Appends the stalled-task highlight of the watched bucket.
fn push_stalled(out: &mut Vec<char>, rows: &Vec<TaskRow>, doing: bool, now: i64)
    ensures
        final(out)@ == old(out)@ + stalled_section(rows@, doing, now as int),
{
    let ghost start = out@;
    let ghost p = stalled_row(doing, now as int);
    let ghost f = stalled_lines(doing, now as int);
    let mut n: u64 = 0;
    let mut i: usize = 0;
    while i < rows.len()
        invariant
            i <= rows@.len(),
            p == stalled_row(doing, now as int),
            n == count_where(rows@.take(i as int), p),
            n <= i,
        decreases rows@.len() - i,
    {
        proof {
            lemma_count_step(rows@, i as int, p);
        }
        let (hit, _) = stall_test(&rows[i], doing, now);
        if hit {
            n = n + 1;
        }
        i = i + 1;
    }
    assert(rows@.take(rows@.len() as int) =~= rows@);
    if n > 0 {
        push_str(out, "  ");
        push_decimal(out, n);
        push_str(out, " task(s) in ");
        let ghost h0 = out@;
        if doing {
            push_str(out, "DOING");
            push_str(out, " stalled (");
            push_str(out, "started");
        } else {
            push_str(out, "QA");
            push_str(out, " stalled (");
            push_str(out, "submitted");
        }
        assert(out@ =~= h0 + watched_bucket(doing) + " stalled ("@ + stall_verb(doing));
        push_str(out, " > ");
        push_decimal(out, 24);
        push_str(out, "h ago):\n");
        let ghost head = out@;
        assert(head =~= start + ("  "@ + decimal(n as nat) + " task(s) in "@ + watched_bucket(doing)
            + " stalled ("@ + stall_verb(doing) + " > "@ + decimal(stall_hours(doing) as nat)
            + "h ago):\n"@));
        let mut j: usize = 0;
        while j < rows.len()
            invariant
                j <= rows@.len(),
                f == stalled_lines(doing, now as int),
                out@ == head + text_over(rows@.take(j as int), f),
            decreases rows@.len() - j,
        {
            proof {
                lemma_text_over_step(rows@, j as int, f);
            }
            let r = &rows[j];
            let ghost before = out@;
            let (hit, hours) = stall_test(r, doing, now);
            if hit {
                push_str(out, "    - ");
                push_str(out, r.id.as_str());
                push_str(out, " (");
                let ghost v0 = out@;
                if doing {
                    push_str(out, "started");
                } else {
                    push_str(out, "submitted");
                }
                assert(out@ =~= v0 + stall_verb(doing));
                push_str(out, " ");
                push_decimal(out, hours);
                push_str(out, "h ago)\n");
            }
            assert(out@ =~= before + f(rows@[j as int]));
            j = j + 1;
        }
        assert(out@ =~= start + stalled_section(rows@, doing, now as int));
    } else {
        assert(out@ =~= start + stalled_section(rows@, doing, now as int));
    }
}


/// Every highlight of the status summary, in order.
pub open spec fn highlights(
    rows: Seq<TaskRow>,
    locks: Seq<ActiveLock>,
    stale_minutes: u32,
    qa_max: u32,
    now: int,
) -> Seq<char> {
    locks_section(locks) + stale_section(locks, stale_minutes as nat) + near_max_section(rows, qa_max)
        + stalled_section(rows, true, now) + stalled_section(rows, false, now)
}

/// The highlights under a heading, when there are any.
pub open spec fn highlights_block(h: Seq<char>) -> Seq<char> {
    if h.len() == 0 {
        Seq::empty()
    } else {
        "Highlights:\n"@ + h + "\n"@
    }
}

/// The hint shown when the workflow holds no task.
pub open spec fn no_tasks_hint() -> Seq<char> {
    "No tasks in the workflow. Run `burl add \"title\"` to create a task.\n"@
}

/// The commands that apply to the tasks at hand.
pub open spec fn commands_block(ready: nat, doing: nat, qa: nat, total: nat) -> Seq<char> {
    if total == 0 {
        no_tasks_hint()
    } else if ready > 0 || doing > 0 || qa > 0 {
        "Commands:\n"@ + (if ready > 0 {
            "  burl claim          - Claim the next available task\n"@
        } else {
            Seq::empty()
        }) + (if doing > 0 {
            "  burl submit TASK-ID - Submit a task for QA\n"@
        } else {
            Seq::empty()
        }) + (if qa > 0 {
            "  burl validate TASK-ID - Run validation on a QA task\n  burl approve TASK-ID  - Approve and merge a task\n"@
        } else {
            Seq::empty()
        })
    } else {
        Seq::empty()
    }
}

/// The text of `burl status`: the bucket table, the highlights (task locks,
/// stale locks, QA tasks near their last attempt, stalled DOING and QA
/// tasks) and the commands that apply.
pub open spec fn status_text(
    rows: Seq<TaskRow>,
    locks: Seq<ActiveLock>,
    stale_minutes: u32,
    qa_max: u32,
    now: int,
) -> Seq<char> {
    "Workflow Status\n===============\n\nBuckets:\n"@ + buckets_text(rows) + "\n"@ + highlights_block(
        highlights(rows, locks, stale_minutes, qa_max, now),
    ) + commands_block(
        bucket_count(rows, "READY"@),
        bucket_count(rows, "DOING"@),
        bucket_count(rows, "QA"@),
        total_count(rows),
    )
}

fn push_commands(out: &mut Vec<char>, c: &BucketCounts)
    requires
        c.total() <= u64::MAX,
    ensures
        final(out)@ == old(out)@ + commands_block(c.ready as nat, c.doing as nat, c.qa as nat, c.total()),
{
    let ghost start = out@;
    let total: u64 = c.ready + c.doing + c.qa + c.done + c.blocked;
    if total == 0 {
        push_str(out, "No tasks in the workflow. Run `burl add \"title\"` to create a task.\n");
    } else if c.ready > 0 || c.doing > 0 || c.qa > 0 {
        push_str(out, "Commands:\n");
        let ghost s0 = out@;
        if c.ready > 0 {
            push_str(out, "  burl claim          - Claim the next available task\n");
        }
        let ghost s1 = out@;
        if c.doing > 0 {
            push_str(out, "  burl submit TASK-ID - Submit a task for QA\n");
        }
        let ghost s2 = out@;
        if c.qa > 0 {
            push_str(
                out,
                "  burl validate TASK-ID - Run validation on a QA task\n  burl approve TASK-ID  - Approve and merge a task\n",
            );
        }
        let ghost x = if c.ready > 0 {
            "  burl claim          - Claim the next available task\n"@
        } else {
            Seq::<char>::empty()
        };
        let ghost y = if c.doing > 0 {
            "  burl submit TASK-ID - Submit a task for QA\n"@
        } else {
            Seq::<char>::empty()
        };
        let ghost z = if c.qa > 0 {
            "  burl validate TASK-ID - Run validation on a QA task\n  burl approve TASK-ID  - Approve and merge a task\n"@
        } else {
            Seq::<char>::empty()
        };
        assert(s1 =~= s0 + x);
        assert(s2 =~= s0 + x + y);
        assert(out@ =~= s0 + x + y + z);
        assert(out@ =~= start + ("Commands:\n"@ + x + y + z));
    } else {
        assert(out@ =~= start + Seq::<char>::empty());
    }
}

/// Builds the text of `burl status` from the task rows (in index order), the
/// active locks, the lock stale threshold (minutes), the QA attempt limit
/// and the current time (seconds since the epoch).
pub fn status_report(
    rows: &Vec<TaskRow>,
    locks: &Vec<ActiveLock>,
    stale_minutes: u32,
    qa_max: u32,
    now: i64,
) -> (r: String)
    ensures
        r@ == status_text(rows@, locks@, stale_minutes, qa_max, now as int),
{
    let c = bucket_counts(rows);
    let n_rows = rows.len();
    assert(c.total() <= n_rows);
    let mut out: Vec<char> = Vec::new();
    push_str(&mut out, "Workflow Status\n===============\n\nBuckets:\n");
    push_buckets(&mut out, &c);
    push_str(&mut out, "\n");
    let ghost s0 = out@;
    let mut h: Vec<char> = Vec::new();
    push_lock_highlights(&mut h, locks, stale_minutes);
    push_near_max(&mut h, rows, qa_max);
    push_stalled(&mut h, rows, true, now);
    push_stalled(&mut h, rows, false, now);
    assert(h@ =~= highlights(rows@, locks@, stale_minutes, qa_max, now as int));
    if h.len() > 0 {
        push_str(&mut out, "Highlights:\n");
        push_all(&mut out, &h);
        push_str(&mut out, "\n");
    }
    assert(out@ =~= s0 + highlights_block(h@));
    let ghost s1 = out@;
    push_commands(&mut out, &c);
    assert(out@ =~= status_text(rows@, locks@, stale_minutes, qa_max, now as int));
    string_from_chars(&out)
}


// ---------------------------------------------------------------------------
// Monitor: the tasks of a bucket, oldest first
// ---------------------------------------------------------------------------

/// The rows of `rows` that lie in `bucket`, in order.
pub open spec fn rows_in(rows: Seq<TaskRow>, bucket: Seq<char>) -> Seq<TaskRow>
    decreases rows.len(),
{
    if rows.len() == 0 {
        Seq::empty()
    } else if rows.last().bucket@ == bucket {
        rows_in(rows.drop_last(), bucket).push(rows.last())
    } else {
        rows_in(rows.drop_last(), bucket)
    }
}

/// Whether `a` is listed before `b`: an older stamp first, a row with a stamp
/// before one without, and rows without a stamp by identifier.
pub open spec fn sorts_before(a: TaskRow, b: TaskRow, doing: bool) -> bool {
    match (stamp_of(a, doing), stamp_of(b, doing)) {
        (Some(x), Some(y)) => x < y,
        (Some(_), None) => true,
        (None, Some(_)) => false,
        (None, None) => lex_lt(a.id@, b.id@),
    }
}

/// Where `x` enters the ordered `s`: before the first element it sorts
/// before, so that it follows every element it ties with.
pub open spec fn insert_pos(s: Seq<TaskRow>, x: TaskRow, doing: bool) -> nat
    decreases s.len(),
{
    if s.len() == 0 {
        0
    } else if sorts_before(x, s[0], doing) {
        0
    } else {
        1 + insert_pos(s.drop_first(), x, doing)
    }
}

/// `s` with `x` entered at its place.
pub open spec fn insert_row(s: Seq<TaskRow>, x: TaskRow, doing: bool) -> Seq<TaskRow> {
    s.insert(insert_pos(s, x, doing) as int, x)
}

/// The rows in listing order: the stable sort of `rows` by `sorts_before`.
pub open spec fn sort_rows(rows: Seq<TaskRow>, doing: bool) -> Seq<TaskRow>
    decreases rows.len(),
{
    if rows.len() == 0 {
        Seq::empty()
    } else {
        insert_row(sort_rows(rows.drop_last(), doing), rows.last(), doing)
    }
}

/// The rows that indices `order` pick out of `rows`.
pub open spec fn picked(rows: Seq<TaskRow>, order: Seq<usize>) -> Seq<TaskRow> {
    order.map_values(|k: usize| rows[k as int])
}

proof fn lemma_insert_pos_at(s: Seq<TaskRow>, x: TaskRow, doing: bool, j: int)
    requires
        0 <= j <= s.len(),
        forall|k: int| 0 <= k < j ==> !sorts_before(x, #[trigger] s[k], doing),
        j < s.len() ==> sorts_before(x, s[j], doing),
    ensures
        insert_pos(s, x, doing) == j,
    decreases s.len(),
{
    if s.len() > 0 && j > 0 {
        assert forall|k: int| 0 <= k < j - 1 implies !sorts_before(x, #[trigger] s.drop_first()[k], doing) by {
            assert(s.drop_first()[k] == s[k + 1]);
        }
        lemma_insert_pos_at(s.drop_first(), x, doing, j - 1);
    }
}

fn sorts_before_exec(a: &TaskRow, b: &TaskRow, doing: bool) -> (r: bool)
    ensures
        r == sorts_before(*a, *b, doing),
{
    let sa = if doing {
        a.started_at
    } else {
        a.submitted_at
    };
    let sb = if doing {
        b.started_at
    } else {
        b.submitted_at
    };
    match (sa, sb) {
        (Some(x), Some(y)) => x < y,
        (Some(_), None) => true,
        (None, Some(_)) => false,
        (None, None) => {
            let ai = chars_of(a.id.as_str());
            let bi = chars_of(b.id.as_str());
            chars_lt(&ai, &bi)
        },
    }
}

proof fn lemma_insert_pos_props(s: Seq<TaskRow>, x: TaskRow, doing: bool)
    ensures
        insert_pos(s, x, doing) <= s.len(),
        forall|k: int| 0 <= k < insert_pos(s, x, doing) ==> !sorts_before(x, #[trigger] s[k], doing),
        insert_pos(s, x, doing) < s.len() ==> sorts_before(x, s[insert_pos(s, x, doing) as int], doing),
    decreases s.len(),
{
    if s.len() > 0 && !sorts_before(x, s[0], doing) {
        lemma_insert_pos_props(s.drop_first(), x, doing);
        assert forall|k: int| 0 <= k < insert_pos(s, x, doing) implies !sorts_before(x, #[trigger] s[k], doing) by {
            if k > 0 {
                assert(s[k] == s.drop_first()[k - 1]);
            }
        }
    }
}

/// `sorts_before` is a strict order: irreflexive and transitive.
pub proof fn lemma_sorts_before_strict(a: TaskRow, b: TaskRow, c: TaskRow, doing: bool)
    ensures
        !sorts_before(a, a, doing),
        sorts_before(a, b, doing) && sorts_before(b, c, doing) ==> sorts_before(a, c, doing),
{
    lemma_lex_total(a.id@, a.id@);
    if sorts_before(a, b, doing) && sorts_before(b, c, doing) {
        if stamp_of(a, doing) is None && stamp_of(b, doing) is None && stamp_of(c, doing) is None {
            lemma_lex_trans(a.id@, b.id@, c.id@);
        }
    }
}

/// Whether no row of `s` sorts before a row listed ahead of it.
pub open spec fn in_listing_order(s: Seq<TaskRow>, doing: bool) -> bool {
    forall|i: int, j: int| 0 <= i < j < s.len() ==> !sorts_before(#[trigger] s[j], #[trigger] s[i], doing)
}

/// A bucket's listing holds exactly the given rows, in listing order: the
/// oldest stamp first, rows without a stamp last, and those by identifier.
pub proof fn lemma_listing_sorted(rows: Seq<TaskRow>, doing: bool)
    ensures
        in_listing_order(sort_rows(rows, doing), doing),
        sort_rows(rows, doing).to_multiset() == rows.to_multiset(),
    decreases rows.len(),
{
    broadcast use vstd::seq_lib::to_multiset_insert, vstd::seq_lib::to_multiset_build;

    if rows.len() > 0 {
        let init = rows.drop_last();
        let x = rows.last();
        lemma_listing_sorted(init, doing);
        let s = sort_rows(init, doing);
        let p = insert_pos(s, x, doing) as int;
        lemma_insert_pos_props(s, x, doing);
        let t = s.insert(p, x);
        assert(sort_rows(rows, doing) == t);
        assert forall|i: int, j: int| 0 <= i < j < t.len() implies !sorts_before(#[trigger] t[j], #[trigger] t[i], doing) by {
            if j < p {
                assert(t[i] == s[i] && t[j] == s[j]);
            } else if j == p {
                assert(t[i] == s[i] && t[j] == x);
            } else if i < p {
                assert(t[i] == s[i] && t[j] == s[j - 1]);
            } else if i == p {
                assert(t[i] == x && t[j] == s[j - 1]);
                lemma_sorts_before_strict(s[j - 1], x, s[p], doing);
                lemma_sorts_before_strict(s[p], s[p], s[p], doing);
                if j - 1 > p {
                    assert(!sorts_before(s[j - 1], s[p], doing));
                }
            } else {
                assert(t[i] == s[i - 1] && t[j] == s[j - 1]);
            }
        }
        assert(rows =~= init.push(x));
        assert(t.to_multiset() == s.to_multiset().insert(x));
        assert(init.push(x).to_multiset() == init.to_multiset().insert(x));
    } else {
        assert(rows =~= Seq::<TaskRow>::empty());
        assert(sort_rows(rows, doing) =~= rows);
    }
}

/// The positions in `rows` of the rows of `bucket`, in listing order.
pub fn bucket_order(rows: &Vec<TaskRow>, bucket: &str, doing: bool) -> (order: Vec<usize>)
    ensures
        forall|k: int| 0 <= k < order@.len() ==> order@[k] < rows@.len(),
        picked(rows@, order@) == sort_rows(rows_in(rows@, bucket@), doing),
{
    let mut order: Vec<usize> = Vec::new();
    let mut i: usize = 0;
    while i < rows.len()
        invariant
            i <= rows@.len(),
            forall|k: int| 0 <= k < order@.len() ==> order@[k] < i,
            picked(rows@, order@) == sort_rows(rows_in(rows@.take(i as int), bucket@), doing),
        decreases rows@.len() - i,
    {
        let ghost pre = rows_in(rows@.take(i as int), bucket@);
        assert(rows@.take(i + 1).drop_last() =~= rows@.take(i as int));
        if str_eq(rows[i].bucket.as_str(), bucket) {
            let x = &rows[i];
            let ghost s = picked(rows@, order@);
            let mut j: usize = 0;
            while j < order.len() && !sorts_before_exec(x, &rows[order[j]], doing)
                invariant
                    j <= order@.len(),
                    forall|k: int| 0 <= k < order@.len() ==> order@[k] < i,
                    i < rows@.len(),
                    *x == rows@[i as int],
                    s == picked(rows@, order@),
                    forall|k: int| 0 <= k < j ==> !sorts_before(*x, #[trigger] s[k], doing),
                decreases order@.len() - j,
            {
                j = j + 1;
            }
            proof {
                lemma_insert_pos_at(s, *x, doing, j as int);
            }
            let ghost old_order = order@;
            order.insert(j, i);
            assert(picked(rows@, order@) =~= s.insert(j as int, rows@[i as int]));
            assert(rows_in(rows@.take(i + 1), bucket@) == pre.push(rows@[i as int]));
            assert(pre.push(rows@[i as int]).drop_last() =~= pre);
        } else {
            assert(rows_in(rows@.take(i + 1), bucket@) == pre);
        }
        i = i + 1;
    }
    assert(rows@.take(rows@.len() as int) =~= rows@);
    order
}


// ---------------------------------------------------------------------------
// Monitor: lines
// ---------------------------------------------------------------------------

/// The age of an optional stamp, or `?` without one.
pub open spec fn age_or_unknown(ts: Option<i64>, now: int) -> Seq<char> {
    match ts {
        Some(t) => age_text(age(now, t as int)),
        None => "?"@,
    }
}

/// Who holds a task, or `-`.
pub open spec fn assignee(r: TaskRow) -> Seq<char> {
    match r.assigned_to {
        Some(a) => a@,
        None => "-"@,
    }
}

/// The body of a DOING row: id, priority, age, assignee and title.
#[verifier::opaque]
pub open spec fn doing_row_text(r: TaskRow, now: int) -> Seq<char> {
    r.id@ + "  ["@ + r.priority@ + "]  started "@ + age_or_unknown(r.started_at, now) + "  "@ + assignee(r)
        + "  "@ + short_title(r.title@, 80)
}

/// The body of a QA row: id, attempts, age, assignee and title.
#[verifier::opaque]
pub open spec fn qa_row_text(r: TaskRow, now: int, qa_max: u32) -> Seq<char> {
    r.id@ + "  [attempts "@ + decimal(r.qa_attempts as nat) + "/"@ + decimal(qa_max as nat) + "]  submitted "@
        + age_or_unknown(r.submitted_at, now) + "  "@ + assignee(r) + "  "@ + short_title(r.title@, 80)
}

/// One listed row: `!` marks a stalled task.
#[verifier::opaque]
pub open spec fn row_text(r: TaskRow, doing: bool, now: int, qa_max: u32) -> Seq<char> {
    (if stalled(stamp_of(r, doing), now, stall_hours(doing)) {
        "  ! "@
    } else {
        "  - "@
    }) + (if doing {
        doing_row_text(r, now)
    } else {
        qa_row_text(r, now, qa_max)
    }) + "\n"@
}

/// The listed rows' lines.
pub open spec fn row_line(doing: bool, now: int, qa_max: u32) -> spec_fn(TaskRow) -> Seq<char> {
    |r: TaskRow| row_text(r, doing, now, qa_max)
}

/// A listing: a heading with the count, the first `limit` rows, how many
/// more there are, and a blank line (nothing for no rows).
pub open spec fn listing(s: Seq<TaskRow>, doing: bool, limit: nat, now: int, qa_max: u32) -> Seq<char> {
    let shown = if s.len() < limit {
        s.len()
    } else {
        limit
    };
    if s.len() == 0 {
        Seq::empty()
    } else {
        watched_bucket(doing) + " ("@ + decimal(s.len()) + "):\n"@ + text_over(
            s.take(shown as int),
            row_line(doing, now, qa_max),
        ) + (if s.len() > shown {
            "  ... and "@ + decimal((s.len() - shown) as nat) + " more\n"@
        } else {
            Seq::empty()
        }) + "\n"@
    }
}

/// The listing of the watched bucket: its rows in listing order.
pub open spec fn bucket_block(rows: Seq<TaskRow>, doing: bool, limit: nat, now: int, qa_max: u32) -> Seq<char> {
    listing(sort_rows(rows_in(rows, watched_bucket(doing)), doing), doing, limit, now, qa_max)
}

fn push_opt_age(out: &mut Vec<char>, ts: Option<i64>, now: i64)
    ensures
        final(out)@ == old(out)@ + age_or_unknown(ts, now as int),
{
    match ts {
        Some(t) => {
            let a = format_age(now, t);
            push_str(out, a.as_str());
        },
        None => push_str(out, "?"),
    }
}

fn push_assignee(out: &mut Vec<char>, r: &TaskRow)
    ensures
        final(out)@ == old(out)@ + assignee(*r),
{
    match &r.assigned_to {
        Some(a) => push_str(out, a.as_str()),
        None => push_str(out, "-"),
    }
}

fn push_doing_text(out: &mut Vec<char>, r: &TaskRow, now: i64)
    ensures
        final(out)@ == old(out)@ + doing_row_text(*r, now as int),
{
    let ghost start = out@;
    push_str(out, r.id.as_str());
    push_str(out, "  [");
    push_str(out, r.priority.as_str());
    push_str(out, "]  started ");
    push_opt_age(out, r.started_at, now);
    push_str(out, "  ");
    push_assignee(out, r);
    push_str(out, "  ");
    let t = truncate_title(r.title.as_str(), 80);
    push_str(out, t.as_str());
    reveal(doing_row_text);
    assert(out@ =~= start + doing_row_text(*r, now as int));
}

fn push_qa_text(out: &mut Vec<char>, r: &TaskRow, now: i64, qa_max: u32)
    ensures
        final(out)@ == old(out)@ + qa_row_text(*r, now as int, qa_max),
{
    let ghost start = out@;
    push_str(out, r.id.as_str());
    push_str(out, "  [attempts ");
    push_decimal(out, r.qa_attempts as u64);
    push_str(out, "/");
    push_decimal(out, qa_max as u64);
    push_str(out, "]  submitted ");
    push_opt_age(out, r.submitted_at, now);
    push_str(out, "  ");
    push_assignee(out, r);
    push_str(out, "  ");
    let t = truncate_title(r.title.as_str(), 80);
    push_str(out, t.as_str());
    reveal(qa_row_text);
    assert(out@ =~= start + qa_row_text(*r, now as int, qa_max));
}

fn push_row_line(out: &mut Vec<char>, r: &TaskRow, doing: bool, now: i64, qa_max: u32)
    ensures
        final(out)@ == old(out)@ + row_text(*r, doing, now as int, qa_max),
{
    let ghost start = out@;
    let stamp = if doing {
        r.started_at
    } else {
        r.submitted_at
    };
    let mark = match stamp {
        Some(t) => (now as i128 - t as i128) > 24 * 3600,
        None => false,
    };
    if mark {
        push_str(out, "  ! ");
    } else {
        push_str(out, "  - ");
    }
    let ghost s0 = out@;
    if doing {
        push_doing_text(out, r, now);
    } else {
        push_qa_text(out, r, now, qa_max);
    }
    push_str(out, "\n");
    reveal(row_text);
    assert(out@ =~= start + row_text(*r, doing, now as int, qa_max));
}

/// Appends the lines of the first `shown` rows that `order` picks.
fn push_rows(
    out: &mut Vec<char>,
    rows: &Vec<TaskRow>,
    order: &Vec<usize>,
    shown: usize,
    doing: bool,
    now: i64,
    qa_max: u32,
)
    requires
        shown <= order@.len(),
        forall|j: int| 0 <= j < order@.len() ==> order@[j] < rows@.len(),
    ensures
        final(out)@ == old(out)@ + text_over(picked(rows@, order@).take(shown as int), row_line(doing, now as int, qa_max)),
{
    let ghost head = out@;
    let ghost s = picked(rows@, order@);
    let ghost f = row_line(doing, now as int, qa_max);
    let mut k: usize = 0;
    while k < shown
        invariant
            k <= shown <= order@.len(),
            forall|j: int| 0 <= j < order@.len() ==> order@[j] < rows@.len(),
            s == picked(rows@, order@),
            f == row_line(doing, now as int, qa_max),
            out@ == head + text_over(s.take(shown as int).take(k as int), f),
        decreases shown - k,
    {
        proof {
            lemma_text_over_step(s.take(shown as int), k as int, f);
        }
        let r = &rows[order[k]];
        assert(*r == s.take(shown as int)[k as int]);
        push_row_line(out, r, doing, now, qa_max);
        k = k + 1;
    }
    assert(s.take(shown as int).take(shown as int) =~= s.take(shown as int));
}

/// Appends the listing of the rows that `order` picks.
#[verifier::rlimit(30)]
fn push_listing(
    out: &mut Vec<char>,
    rows: &Vec<TaskRow>,
    order: &Vec<usize>,
    doing: bool,
    limit: usize,
    now: i64,
    qa_max: u32,
)
    requires
        forall|j: int| 0 <= j < order@.len() ==> order@[j] < rows@.len(),
    ensures
        final(out)@ == old(out)@ + listing(picked(rows@, order@), doing, limit as nat, now as int, qa_max),
{
    let ghost start = out@;
    let ghost s = picked(rows@, order@);
    let n = order.len();
    if n == 0 {
        assert(out@ =~= start + listing(s, doing, limit as nat, now as int, qa_max));
        return;
    }
    let shown = if n < limit {
        n
    } else {
        limit
    };
    let ghost h0 = out@;
    if doing {
        push_str(out, "DOING");
    } else {
        push_str(out, "QA");
    }
    assert(out@ =~= h0 + watched_bucket(doing));
    push_str(out, " (");
    push_decimal(out, n as u64);
    push_str(out, "):\n");
    let ghost head = out@;
    let ghost hd = watched_bucket(doing) + " ("@ + decimal(n as nat) + "):\n"@;
    assert(head =~= start + hd);
    push_rows(out, rows, order, shown, doing, now, qa_max);
    let ghost body = out@;
    let ghost t = text_over(s.take(shown as int), row_line(doing, now as int, qa_max));
    assert(body == head + t);
    let ghost more = if n > shown {
        "  ... and "@ + decimal((n - shown) as nat) + " more\n"@
    } else {
        Seq::<char>::empty()
    };
    if n > shown {
        push_str(out, "  ... and ");
        push_decimal(out, (n - shown) as u64);
        push_str(out, " more\n");
    }
    assert(out@ =~= body + more);
    push_str(out, "\n");
    assert(out@ =~= start + (hd + t + more + "\n"@));
    assert(listing(s, doing, limit as nat, now as int, qa_max) == hd + t + more + "\n"@);
}

/// Appends the listing of the watched bucket.
fn push_bucket_block(out: &mut Vec<char>, rows: &Vec<TaskRow>, doing: bool, limit: usize, now: i64, qa_max: u32)
    ensures
        final(out)@ == old(out)@ + bucket_block(rows@, doing, limit as nat, now as int, qa_max),
{
    let bucket = if doing {
        "DOING"
    } else {
        "QA"
    };
    assert(bucket@ == watched_bucket(doing));
    let order = bucket_order(rows, bucket, doing);
    push_listing(out, rows, &order, doing, limit, now, qa_max);
}


// ---------------------------------------------------------------------------
// Monitor: the dashboard
// ---------------------------------------------------------------------------

/// An event of the log as the monitor shows it.
#[derive(Debug, Clone)]
pub struct EventRow {
    /// When it happened (seconds since the epoch).
    pub ts: i64,
    /// What happened.
    pub action: String,
    /// The task it concerns, if any.
    pub task: Option<String>,
    /// The outcome recorded under `passed`, if any.
    pub passed: Option<bool>,
}

/// ` (<n> stalled)` when `n` tasks stall, else nothing.
pub open spec fn stalled_note(n: nat) -> Seq<char> {
    if n > 0 {
        "  ("@ + decimal(n) + " stalled)"@
    } else {
        Seq::empty()
    }
}

/// The monitor's bucket table: the status table, with the stalled tasks
/// noted beside DOING and QA.
pub open spec fn monitor_counts_text(rows: Seq<TaskRow>, now: int) -> Seq<char> {
    count_line("READY"@, bucket_count(rows, "READY"@)) + "\n"@ + count_line("DOING"@, bucket_count(rows, "DOING"@))
        + stalled_note(count_where(rows, stalled_row(true, now))) + "\n"@ + count_line(
        "QA"@,
        bucket_count(rows, "QA"@),
    ) + stalled_note(count_where(rows, stalled_row(false, now))) + "\n"@ + count_line(
        "DONE"@,
        bucket_count(rows, "DONE"@),
    ) + "\n"@ + count_line("BLOCKED"@, bucket_count(rows, "BLOCKED"@)) + "\n"@ + "  --------\n"@
        + count_line("Total"@, total_count(rows)) + "\n"@
}

/// A lock line of the monitor.
pub open spec fn monitor_lock_line() -> spec_fn(ActiveLock) -> Seq<char> {
    |l: ActiveLock|
        "  - "@ + l.name@ + " ("@ + l.owner@ + ", "@ + l.age@ + ", action: "@ + l.action@ + ")"@
            + stale_marker(l.is_stale) + "\n"@
}

/// The active locks: a count (with the stale ones) and one line each.
pub open spec fn locks_block(locks: Seq<ActiveLock>) -> Seq<char> {
    let stale = count_where(locks, is_stale_lock());
    if locks.len() == 0 {
        Seq::empty()
    } else {
        "Locks: "@ + decimal(locks.len()) + (if stale > 0 {
            "  ("@ + decimal(stale) + " stale)"@
        } else {
            Seq::empty()
        }) + "\n"@ + text_over(locks, monitor_lock_line()) + "\n"@
    }
}

/// Two decimal digits of `n < 100`.
pub open spec fn two_digits(n: nat) -> Seq<char> {
    seq![digit_char(n / 10), digit_char(n % 10)]
}

/// The UTC time of day of a timestamp, `HH:MM:SS` (what chrono's
/// `format("%H:%M:%S")` writes: the day starts at each multiple of 86400).
pub open spec fn clock_text(ts: int) -> Seq<char> {
    let d = ts % 86400;
    two_digits((d / 3600) as nat) + ":"@ + two_digits(((d % 3600) / 60) as nat) + ":"@ + two_digits((d % 60) as nat)
}

/// ` PASS` or ` FAIL` for a recorded outcome, else nothing.
pub open spec fn outcome_text(passed: Option<bool>) -> Seq<char> {
    match passed {
        Some(true) => " PASS"@,
        Some(false) => " FAIL"@,
        None => Seq::empty(),
    }
}

/// An event line: time of day, action and task padded to 10, outcome.
pub open spec fn event_line() -> spec_fn(EventRow) -> Seq<char> {
    |e: EventRow|
        "  - "@ + clock_text(e.ts as int) + "  "@ + pad_right(e.action@, 10) + "  "@ + pad_right(
            match e.task {
                Some(t) => t@,
                None => "-"@,
            },
            10,
        ) + outcome_text(e.passed) + "\n"@
}

/// The recent events, when asked for and there are any.
pub open spec fn events_block(events: Seq<EventRow>, tail: nat) -> Seq<char> {
    if tail > 0 && events.len() > 0 {
        "Recent events (last "@ + decimal(events.len()) + "):\n"@ + text_over(events, event_line()) + "\n"@
    } else {
        Seq::empty()
    }
}

/// The text of one refresh of `burl monitor`.
pub open spec fn monitor_text(
    rows: Seq<TaskRow>,
    locks: Seq<ActiveLock>,
    events: Seq<EventRow>,
    tail: nat,
    limit: nat,
    qa_max: u32,
    now: int,
    repo: Seq<char>,
    workflow: Seq<char>,
) -> Seq<char> {
    "Burl Monitor  (Ctrl+C to exit)\nUpdated: "@ + utc_text(now) + "\n\nRepo:     "@ + repo + "\nWorkflow: "@
        + workflow + "\n\nBuckets:\n"@ + monitor_counts_text(rows, now) + "\n"@ + locks_block(locks)
        + bucket_block(rows, true, limit, now, qa_max) + bucket_block(rows, false, limit, now, qa_max)
        + events_block(events, tail) + if total_count(rows) == 0 {
        no_tasks_hint() + "\n"@
    } else {
        Seq::empty()
    }
}

fn push_two_digits(out: &mut Vec<char>, n: u64)
    requires
        n < 100,
    ensures
        final(out)@ == old(out)@ + two_digits(n as nat),
{
    let a = digit(n / 10);
    let b = digit(n % 10);
    out.push(a);
    out.push(b);
    assert(out@ =~= old(out)@ + two_digits(n as nat));
}

fn push_clock(out: &mut Vec<char>, ts: i64)
    ensures
        final(out)@ == old(out)@ + clock_text(ts as int),
{
    let ghost start = out@;
    let d: u64 = if ts >= 0 {
        (ts as u64) % 86400
    } else {
        let m: u64 = ((0i128 - ts as i128) as u64) % 86400;
        if m == 0 {
            0
        } else {
            86400 - m
        }
    };
    assert(d == (ts as int) % 86400);
    push_two_digits(out, d / 3600);
    push_str(out, ":");
    push_two_digits(out, (d % 3600) / 60);
    push_str(out, ":");
    push_two_digits(out, d % 60);
    assert(out@ =~= start + clock_text(ts as int));
}

fn count_stalled(rows: &Vec<TaskRow>, doing: bool, now: i64) -> (n: u64)
    ensures
        n == count_where(rows@, stalled_row(doing, now as int)),
{
    let ghost p = stalled_row(doing, now as int);
    let mut n: u64 = 0;
    let mut i: usize = 0;
    while i < rows.len()
        invariant
            i <= rows@.len(),
            p == stalled_row(doing, now as int),
            n == count_where(rows@.take(i as int), p),
            n <= i,
        decreases rows@.len() - i,
    {
        proof {
            lemma_count_step(rows@, i as int, p);
        }
        let (hit, _) = stall_test(&rows[i], doing, now);
        if hit {
            n = n + 1;
        }
        i = i + 1;
    }
    assert(rows@.take(rows@.len() as int) =~= rows@);
    n
}

fn push_stalled_note(out: &mut Vec<char>, n: u64)
    ensures
        final(out)@ == old(out)@ + stalled_note(n as nat),
{
    if n > 0 {
        push_str(out, "  (");
        push_decimal(out, n);
        push_str(out, " stalled)");
        assert(out@ =~= old(out)@ + stalled_note(n as nat));
    } else {
        assert(out@ =~= old(out)@ + stalled_note(n as nat));
    }
}

fn push_monitor_counts(out: &mut Vec<char>, rows: &Vec<TaskRow>, now: i64)
    ensures
        final(out)@ == old(out)@ + monitor_counts_text(rows@, now as int),
{
    let ghost start = out@;
    let c = bucket_counts(rows);
    let n_rows = rows.len();
    assert(c.total() <= n_rows);
    let sd = count_stalled(rows, true, now);
    let sq = count_stalled(rows, false, now);
    push_count_line_nl(out, "READY", c.ready);
    let ghost s1 = out@;
    push_count_line(out, "DOING", c.doing);
    push_stalled_note(out, sd);
    push_str(out, "\n");
    let ghost s2 = out@;
    push_count_line(out, "QA", c.qa);
    push_stalled_note(out, sq);
    push_str(out, "\n");
    let ghost s3 = out@;
    push_count_line_nl(out, "DONE", c.done);
    push_count_line_nl(out, "BLOCKED", c.blocked);
    push_str(out, "  --------\n");
    let ghost s4 = out@;
    let total: u64 = c.ready + c.doing + c.qa + c.done + c.blocked;
    push_count_line_nl(out, "Total", total);
    let ghost b1 = count_line("READY"@, c.ready as nat) + "\n"@;
    let ghost b2 = count_line("DOING"@, c.doing as nat) + stalled_note(sd as nat) + "\n"@;
    let ghost b3 = count_line("QA"@, c.qa as nat) + stalled_note(sq as nat) + "\n"@;
    let ghost b45 = count_line("DONE"@, c.done as nat) + "\n"@ + (count_line("BLOCKED"@, c.blocked as nat) + "\n"@)
        + "  --------\n"@;
    let ghost t = count_line("Total"@, total as nat) + "\n"@;
    assert(s2 =~= start + (b1 + b2));
    assert(s3 =~= start + (b1 + b2) + b3);
    assert(s4 =~= start + (b1 + b2) + b3 + b45);
    assert(out@ =~= start + monitor_counts_text(rows@, now as int));
}

fn push_monitor_lock_line(out: &mut Vec<char>, l: &ActiveLock)
    ensures
        final(out)@ == old(out)@ + monitor_lock_line()(*l),
{
    let ghost start = out@;
    push_str(out, "  - ");
    push_str(out, l.name.as_str());
    push_str(out, " (");
    push_str(out, l.owner.as_str());
    push_str(out, ", ");
    push_str(out, l.age.as_str());
    push_str(out, ", action: ");
    push_str(out, l.action.as_str());
    push_str(out, ")");
    let ghost mid = out@;
    if l.is_stale {
        push_str(out, " [STALE]");
    } else {
        assert(out@ =~= mid + Seq::<char>::empty());
    }
    push_str(out, "\n");
    assert(out@ =~= start + monitor_lock_line()(*l));
}

fn push_locks_block(out: &mut Vec<char>, locks: &Vec<ActiveLock>)
    ensures
        final(out)@ == old(out)@ + locks_block(locks@),
{
    let ghost start = out@;
    if locks.len() == 0 {
        assert(out@ =~= start + locks_block(locks@));
        return;
    }
    let stale = count_locks(locks, false);
    push_str(out, "Locks: ");
    push_decimal(out, locks.len() as u64);
    let ghost m0 = out@;
    if stale > 0 {
        push_str(out, "  (");
        push_decimal(out, stale);
        push_str(out, " stale)");
    }
    let ghost note = if stale > 0 {
        "  ("@ + decimal(stale as nat) + " stale)"@
    } else {
        Seq::<char>::empty()
    };
    assert(out@ =~= m0 + note);
    push_str(out, "\n");
    let ghost head = out@;
    let ghost f = monitor_lock_line();
    let mut i: usize = 0;
    while i < locks.len()
        invariant
            i <= locks@.len(),
            f == monitor_lock_line(),
            out@ == head + text_over(locks@.take(i as int), f),
        decreases locks@.len() - i,
    {
        proof {
            lemma_text_over_step(locks@, i as int, f);
        }
        push_monitor_lock_line(out, &locks[i]);
        i = i + 1;
    }
    assert(locks@.take(locks@.len() as int) =~= locks@);
    push_str(out, "\n");
    assert(out@ =~= start + locks_block(locks@));
}

fn push_event_line(out: &mut Vec<char>, e: &EventRow)
    ensures
        final(out)@ == old(out)@ + event_line()(*e),
{
    let ghost start = out@;
    push_str(out, "  - ");
    push_clock(out, e.ts);
    push_str(out, "  ");
    push_pad_right(out, e.action.as_str(), 10);
    push_str(out, "  ");
    match &e.task {
        Some(t) => push_pad_right(out, t.as_str(), 10),
        None => push_pad_right(out, "-", 10),
    }
    let ghost mid = out@;
    match e.passed {
        Some(true) => push_str(out, " PASS"),
        Some(false) => push_str(out, " FAIL"),
        None => {},
    }
    assert(out@ =~= mid + outcome_text(e.passed));
    push_str(out, "\n");
    assert(out@ =~= start + event_line()(*e));
}

fn push_events_block(out: &mut Vec<char>, events: &Vec<EventRow>, tail: usize)
    ensures
        final(out)@ == old(out)@ + events_block(events@, tail as nat),
{
    let ghost start = out@;
    if tail == 0 || events.len() == 0 {
        assert(out@ =~= start + events_block(events@, tail as nat));
        return;
    }
    push_str(out, "Recent events (last ");
    push_decimal(out, events.len() as u64);
    push_str(out, "):\n");
    let ghost head = out@;
    let ghost f = event_line();
    let mut i: usize = 0;
    while i < events.len()
        invariant
            i <= events@.len(),
            f == event_line(),
            out@ == head + text_over(events@.take(i as int), f),
        decreases events@.len() - i,
    {
        proof {
            lemma_text_over_step(events@, i as int, f);
        }
        push_event_line(out, &events[i]);
        i = i + 1;
    }
    assert(events@.take(events@.len() as int) =~= events@);
    push_str(out, "\n");
    assert(out@ =~= start + events_block(events@, tail as nat));
}

/// The last `count` lines of `content`, in order (all of them when there
/// are fewer).
pub open spec fn last_lines(content: Seq<char>, count: nat) -> Seq<Seq<char>> {
    let ls = lines(content);
    if ls.len() > count {
        ls.skip(ls.len() - count)
    } else {
        ls
    }
}

/// The texts of some strings.
pub open spec fn texts(v: Seq<String>) -> Seq<Seq<char>> {
    Seq::new(v.len(), |k: int| v[k]@)
}

/// Picks the last `count` lines of the event log, the ones the monitor
/// shows (those that parse as events).
pub fn recent_lines(content: &str, count: usize) -> (r: Vec<String>)
    ensures
        texts(r@) == last_lines(content@, count as nat),
{
    let cs = chars_of(content);
    let ls = split_lines(&cs);
    let ghost lsv = ls@.map_values(|l: Vec<char>| l@);
    assert(lsv == lines(content@));
    assert(lsv.len() == ls@.len());
    let from: usize = if ls.len() > count {
        ls.len() - count
    } else {
        0
    };
    let mut r: Vec<String> = Vec::new();
    let mut i: usize = from;
    while i < ls.len()
        invariant
            from <= i <= ls@.len(),
            lsv == ls@.map_values(|l: Vec<char>| l@),
            lsv.len() == ls@.len(),
            r@.len() == i - from,
            texts(r@) == lsv.subrange(from as int, i as int),
        decreases ls@.len() - i,
    {
        let line = string_from_chars(&ls[i]);
        assert(lsv[i as int] == ls@[i as int]@);
        assert(line@ == lsv[i as int]);
        let ghost before = r@;
        r.push(line);
        assert(r@ == before.push(line));
        assert forall|k: int| 0 <= k < r@.len() implies #[trigger] texts(r@)[k] == lsv.subrange(from as int, i + 1)[k] by {
            if k < before.len() {
                assert(texts(before)[k] == lsv.subrange(from as int, i as int)[k]);
                assert(r@[k] == before[k]);
                assert(texts(before)[k] == before[k]@);
            } else {
                assert(r@[k] == line);
            }
            assert(texts(r@)[k] == r@[k]@);
        }
        assert(texts(r@) =~= lsv.subrange(from as int, i + 1));
        i = i + 1;
    }
    assert(lsv.subrange(from as int, ls@.len() as int) =~= last_lines(content@, count as nat));
    r
}

/// Builds the text of one refresh of `burl monitor`: the time, the
/// repository and workflow paths, the bucket table with stalled counts, the
/// active locks, the DOING and QA listings (at most `limit` rows each, the
/// oldest first), the recent events and a hint for an empty workflow.
pub fn monitor_report(
    rows: &Vec<TaskRow>,
    locks: &Vec<ActiveLock>,
    events: &Vec<EventRow>,
    tail: usize,
    limit: usize,
    qa_max: u32,
    now: i64,
    repo: &str,
    workflow: &str,
) -> (r: String)
    requires
        MIN_STAMP <= now <= MAX_STAMP,
    ensures
        r@ == monitor_text(rows@, locks@, events@, tail as nat, limit as nat, qa_max, now as int, repo@, workflow@),
{
    let mut out: Vec<char> = Vec::new();
    push_str(&mut out, "Burl Monitor  (Ctrl+C to exit)\nUpdated: ");
    let stamp = format_utc(now);
    push_str(&mut out, stamp.as_str());
    push_str(&mut out, "\n\nRepo:     ");
    push_str(&mut out, repo);
    push_str(&mut out, "\nWorkflow: ");
    push_str(&mut out, workflow);
    push_str(&mut out, "\n\nBuckets:\n");
    let ghost s0 = out@;
    push_monitor_counts(&mut out, rows, now);
    push_str(&mut out, "\n");
    let ghost s1 = out@;
    push_locks_block(&mut out, locks);
    push_bucket_block(&mut out, rows, true, limit, now, qa_max);
    push_bucket_block(&mut out, rows, false, limit, now, qa_max);
    push_events_block(&mut out, events, tail);
    let ghost s2 = out@;
    let c = bucket_counts(rows);
    let n_rows = rows.len();
    assert(c.total() <= n_rows);
    let total: u64 = c.ready + c.doing + c.qa + c.done + c.blocked;
    if total == 0 {
        push_str(&mut out, "No tasks in the workflow. Run `burl add \"title\"` to create a task.\n");
        push_str(&mut out, "\n");
    }
    assert(out@ =~= monitor_text(
        rows@,
        locks@,
        events@,
        tail as nat,
        limit as nat,
        qa_max,
        now as int,
        repo@,
        workflow@,
    ));
    string_from_chars(&out)
}


// ---------------------------------------------------------------------------
// Task view
// ---------------------------------------------------------------------------

/// What `burl show` answers for an unknown task.
pub open spec fn show_not_found_text(task_id: Seq<char>) -> Seq<char> {
    "task '"@ + task_id
        + "' not found.\n\nSearched buckets: READY, DOING, QA, DONE, BLOCKED\n\nUse `burl status` to see all tasks."@
}

/// Finds the task to show, in any bucket.
pub fn find_task_to_show<'a>(index: &'a TaskIndex, task_id: &str) -> (r: Result<&'a TaskInfo, BurlError>)
    ensures
        match find_task(index.tasks@, task_id@) {
            Some(info) => r matches Ok(found) && *found == info,
            None => r matches Err(BurlError::UserError(m)) && m@ == show_not_found_text(task_id@),
        },
{
    match index.find(task_id) {
        Some(info) => Ok(info),
        None => {
            let mut m = chars_of("task '");
            push_str(&mut m, task_id);
            push_str(
                &mut m,
                "' not found.\n\nSearched buckets: READY, DOING, QA, DONE, BLOCKED\n\nUse `burl status` to see all tasks.",
            );
            Err(BurlError::UserError(string_from_chars(&m)))
        },
    }
}

/// `n` copies of `c`.
pub open spec fn repeat(c: char, n: nat) -> Seq<char> {
    Seq::new(n, |i: int| c)
}

/// A labelled timestamp line, when the stamp is present.
pub open spec fn stamp_line(label: Seq<char>, ts: Option<i64>) -> Seq<char> {
    match ts {
        Some(t) => label + utc_text(t as int) + "\n"@,
        None => Seq::empty(),
    }
}

/// A labelled text line, when the text is present.
pub open spec fn opt_line(label: Seq<char>, v: Option<String>) -> Seq<char> {
    match v {
        Some(x) => label + x@ + "\n"@,
        None => Seq::empty(),
    }
}

/// One line per item, each after `prefix`.
pub open spec fn item_lines(prefix: Seq<char>) -> spec_fn(String) -> Seq<char> {
    |x: String| prefix + x@ + "\n"@
}

/// A titled list, when it has items.
pub open spec fn titled_list(title: Seq<char>, items: Seq<String>, prefix: Seq<char>) -> Seq<char> {
    if items.len() == 0 {
        Seq::empty()
    } else {
        title + text_over(items, item_lines(prefix))
    }
}

/// The git section, when a branch or a worktree is recorded.
pub open spec fn git_section(fm: TaskFrontmatter) -> Seq<char> {
    if fm.branch is Some || fm.worktree is Some {
        "\nGit:\n"@ + opt_line("  Branch:   "@, fm.branch) + opt_line("  Worktree: "@, fm.worktree) + opt_line(
            "  Base SHA: "@,
            fm.base_sha,
        )
    } else {
        Seq::empty()
    }
}

/// The scope section, when any scope is declared.
pub open spec fn scope_section(fm: TaskFrontmatter) -> Seq<char> {
    if fm.affects@.len() > 0 || fm.affects_globs@.len() > 0 || fm.must_not_touch@.len() > 0 {
        "\nScope:\n"@ + titled_list("  Affects:\n"@, fm.affects@, "    - "@) + titled_list(
            "  Affects (globs):\n"@,
            fm.affects_globs@,
            "    - "@,
        ) + titled_list("  Must Not Touch:\n"@, fm.must_not_touch@, "    - "@)
    } else {
        Seq::empty()
    }
}

/// The metadata lines of a task.
pub open spec fn metadata_text(fm: TaskFrontmatter) -> Seq<char> {
    "Title:      "@ + fm.title@ + "\n"@ + "Priority:   "@ + fm.priority@ + "\n"@ + stamp_line(
        "Created:    "@,
        fm.created,
    ) + opt_line("Assigned:   "@, fm.assigned_to) + stamp_line("Started:    "@, fm.started_at) + stamp_line(
        "Submitted:  "@,
        fm.submitted_at,
    ) + stamp_line("Completed:  "@, fm.completed_at) + (if fm.qa_attempts > 0 {
        "QA Attempts: "@ + decimal(fm.qa_attempts as nat) + "\n"@
    } else {
        Seq::empty()
    })
}

/// The body of a task trimmed, or a note that it has none.
pub open spec fn body_text(body: Seq<char>) -> Seq<char> {
    if trim(body).len() > 0 {
        trim(body) + "\n"@
    } else {
        "(No body content)\n"@
    }
}

/// The text of `burl show`: a banner with the identifier and bucket, the
/// metadata, git details, scope, dependencies and tags when present, the
/// trimmed body and the file's path.
pub open spec fn task_view_text(task_id: Seq<char>, bucket: Seq<char>, task: TaskFile, path: Seq<char>) -> Seq<char> {
    let bar = repeat('=', 80) + "\n"@;
    let rule = repeat('-', 80) + "\n"@;
    bar + task_id + " ["@ + bucket + "]\n"@ + bar + "\n"@ + metadata_text(task.frontmatter) + git_section(
        task.frontmatter,
    ) + scope_section(task.frontmatter) + titled_list(
        "\nDependencies:\n"@,
        task.frontmatter.depends_on@,
        "  - "@,
    ) + (if task.frontmatter.tags@.len() > 0 {
        "\nTags: "@ + join(views(task.frontmatter.tags@), ", "@) + "\n"@
    } else {
        Seq::empty()
    }) + "\n"@ + rule + "\n"@ + body_text(task.body@) + "\n"@ + rule + "Path: "@ + path + "\n"@
}

/// Whether every timestamp of a task lies in the range of `DateTime<Utc>`
/// (every time read back from a task file does).
pub open spec fn stamps_in_range(fm: TaskFrontmatter) -> bool {
    &&& (fm.created matches Some(t) ==> MIN_STAMP <= t <= MAX_STAMP)
    &&& (fm.started_at matches Some(t) ==> MIN_STAMP <= t <= MAX_STAMP)
    &&& (fm.submitted_at matches Some(t) ==> MIN_STAMP <= t <= MAX_STAMP)
    &&& (fm.completed_at matches Some(t) ==> MIN_STAMP <= t <= MAX_STAMP)
}

/// Whether every timestamp of a task can be written as a date.
pub fn has_printable_stamps(fm: &TaskFrontmatter) -> (r: bool)
    ensures
        r == stamps_in_range(*fm),
{
    let ok = |t: Option<i64>| -> (b: bool)
        ensures
            b == (t matches Some(x) ==> MIN_STAMP <= x <= MAX_STAMP),
        {
            match t {
                Some(x) => MIN_STAMP <= x && x <= MAX_STAMP,
                None => true,
            }
        };
    ok(fm.created) && ok(fm.started_at) && ok(fm.submitted_at) && ok(fm.completed_at)
}

fn push_repeat(out: &mut Vec<char>, c: char, n: usize)
    ensures
        final(out)@ == old(out)@ + repeat(c, n as nat),
{
    let mut k: usize = 0;
    while k < n
        invariant
            k <= n,
            out@ == old(out)@ + repeat(c, k as nat),
        decreases n - k,
    {
        out.push(c);
        k = k + 1;
        assert(out@ =~= old(out)@ + repeat(c, k as nat));
    }
}

fn push_stamp_line(out: &mut Vec<char>, label: &str, ts: Option<i64>)
    requires
        ts matches Some(t) ==> MIN_STAMP <= t <= MAX_STAMP,
    ensures
        final(out)@ == old(out)@ + stamp_line(label@, ts),
{
    match ts {
        Some(t) => {
            push_str(out, label);
            let x = format_utc(t);
            push_str(out, x.as_str());
            push_str(out, "\n");
            assert(out@ =~= old(out)@ + stamp_line(label@, ts));
        },
        None => {
            assert(out@ =~= old(out)@ + stamp_line(label@, ts));
        },
    }
}

fn push_opt_line(out: &mut Vec<char>, label: &str, v: &Option<String>)
    ensures
        final(out)@ == old(out)@ + opt_line(label@, *v),
{
    match v {
        Some(x) => {
            push_str(out, label);
            push_str(out, x.as_str());
            push_str(out, "\n");
            assert(out@ =~= old(out)@ + opt_line(label@, *v));
        },
        None => {
            assert(out@ =~= old(out)@ + opt_line(label@, *v));
        },
    }
}

fn push_titled_list(out: &mut Vec<char>, title: &str, items: &Vec<String>, prefix: &str)
    ensures
        final(out)@ == old(out)@ + titled_list(title@, items@, prefix@),
{
    let ghost start = out@;
    if items.len() == 0 {
        assert(out@ =~= start + titled_list(title@, items@, prefix@));
        return;
    }
    push_str(out, title);
    let ghost head = out@;
    let ghost f = item_lines(prefix@);
    let mut i: usize = 0;
    while i < items.len()
        invariant
            i <= items@.len(),
            f == item_lines(prefix@),
            out@ == head + text_over(items@.take(i as int), f),
        decreases items@.len() - i,
    {
        proof {
            lemma_text_over_step(items@, i as int, f);
        }
        let ghost before = out@;
        push_str(out, prefix);
        push_str(out, items[i].as_str());
        push_str(out, "\n");
        assert(out@ =~= before + f(items@[i as int]));
        i = i + 1;
    }
    assert(items@.take(items@.len() as int) =~= items@);
    assert(out@ =~= start + titled_list(title@, items@, prefix@));
}

#[verifier::rlimit(60)]
fn push_metadata(out: &mut Vec<char>, fm: &TaskFrontmatter)
    requires
        stamps_in_range(*fm),
    ensures
        final(out)@ == old(out)@ + metadata_text(*fm),
{
    let ghost start = out@;
    push_str(out, "Title:      ");
    push_str(out, fm.title.as_str());
    push_str(out, "\n");
    push_str(out, "Priority:   ");
    push_str(out, fm.priority.as_str());
    push_str(out, "\n");
    let ghost s0 = out@;
    let ghost a = "Title:      "@ + fm.title@ + "\n"@ + "Priority:   "@ + fm.priority@ + "\n"@;
    assert(s0 =~= start + a);
    push_stamp_line(out, "Created:    ", fm.created);
    push_opt_line(out, "Assigned:   ", &fm.assigned_to);
    let ghost s1 = out@;
    let ghost b = stamp_line("Created:    "@, fm.created) + opt_line("Assigned:   "@, fm.assigned_to);
    assert(s1 =~= s0 + b);
    push_stamp_line(out, "Started:    ", fm.started_at);
    push_stamp_line(out, "Submitted:  ", fm.submitted_at);
    push_stamp_line(out, "Completed:  ", fm.completed_at);
    let ghost s2 = out@;
    let ghost c = stamp_line("Started:    "@, fm.started_at) + stamp_line("Submitted:  "@, fm.submitted_at)
        + stamp_line("Completed:  "@, fm.completed_at);
    assert(s2 =~= s1 + c);
    if fm.qa_attempts > 0 {
        push_str(out, "QA Attempts: ");
        push_decimal(out, fm.qa_attempts as u64);
        push_str(out, "\n");
    }
    let ghost q = if fm.qa_attempts > 0 {
        "QA Attempts: "@ + decimal(fm.qa_attempts as nat) + "\n"@
    } else {
        Seq::<char>::empty()
    };
    assert(out@ =~= s2 + q);
    assert(metadata_text(*fm) =~= a + b + c + q);
    assert(out@ =~= start + metadata_text(*fm));
}

fn push_git_section(out: &mut Vec<char>, fm: &TaskFrontmatter)
    ensures
        final(out)@ == old(out)@ + git_section(*fm),
{
    let ghost start = out@;
    if fm.branch.is_some() || fm.worktree.is_some() {
        push_str(out, "\nGit:\n");
        push_opt_line(out, "  Branch:   ", &fm.branch);
        push_opt_line(out, "  Worktree: ", &fm.worktree);
        push_opt_line(out, "  Base SHA: ", &fm.base_sha);
    }
    assert(out@ =~= start + git_section(*fm));
}

fn push_scope_section(out: &mut Vec<char>, fm: &TaskFrontmatter)
    ensures
        final(out)@ == old(out)@ + scope_section(*fm),
{
    let ghost start = out@;
    if fm.affects.len() > 0 || fm.affects_globs.len() > 0 || fm.must_not_touch.len() > 0 {
        push_str(out, "\nScope:\n");
        push_titled_list(out, "  Affects:\n", &fm.affects, "    - ");
        push_titled_list(out, "  Affects (globs):\n", &fm.affects_globs, "    - ");
        push_titled_list(out, "  Must Not Touch:\n", &fm.must_not_touch, "    - ");
    }
    assert(out@ =~= start + scope_section(*fm));
}

fn push_body(out: &mut Vec<char>, body: &str)
    ensures
        final(out)@ == old(out)@ + body_text(body@),
{
    let bc = chars_of(body);
    let tb = trim_chars(&bc);
    if tb.len() > 0 {
        push_all(out, &tb);
        push_str(out, "\n");
    } else {
        push_str(out, "(No body content)\n");
    }
    assert(out@ =~= old(out)@ + body_text(body@));
}

fn push_bar(out: &mut Vec<char>, c: char)
    ensures
        final(out)@ == old(out)@ + (repeat(c, 80) + "\n"@),
{
    push_repeat(out, c, 80);
    push_str(out, "\n");
    assert(out@ =~= old(out)@ + (repeat(c, 80) + "\n"@));
}

/// Builds the text of `burl show` for the task `task_id`, found in `bucket`
/// at `path`.
#[verifier::rlimit(60)]
pub fn task_view(task_id: &str, bucket: &str, task: &TaskFile, path: &str) -> (r: String)
    requires
        stamps_in_range(task.frontmatter),
    ensures
        r@ == task_view_text(task_id@, bucket@, *task, path@),
{
    let fm = &task.frontmatter;
    let ghost bar = repeat('=', 80) + "\n"@;
    let ghost rule = repeat('-', 80) + "\n"@;
    let mut out: Vec<char> = Vec::new();
    push_bar(&mut out, '=');
    push_str(&mut out, task_id);
    push_str(&mut out, " [");
    push_str(&mut out, bucket);
    push_str(&mut out, "]\n");
    push_bar(&mut out, '=');
    push_str(&mut out, "\n");
    let ghost s0 = out@;
    let ghost a = bar + task_id@ + " ["@ + bucket@ + "]\n"@ + bar + "\n"@;
    assert(s0 =~= a);
    push_metadata(&mut out, fm);
    push_git_section(&mut out, fm);
    push_scope_section(&mut out, fm);
    push_titled_list(&mut out, "\nDependencies:\n", &fm.depends_on, "  - ");
    let ghost s1 = out@;
    let ghost b = metadata_text(*fm) + git_section(*fm) + scope_section(*fm) + titled_list(
        "\nDependencies:\n"@,
        fm.depends_on@,
        "  - "@,
    );
    assert(s1 =~= s0 + b);
    if fm.tags.len() > 0 {
        push_str(&mut out, "\nTags: ");
        let tags = join_strings(&fm.tags, ", ");
        push_str(&mut out, tags.as_str());
        push_str(&mut out, "\n");
    }
    let ghost tg = if fm.tags@.len() > 0 {
        "\nTags: "@ + join(views(fm.tags@), ", "@) + "\n"@
    } else {
        Seq::<char>::empty()
    };
    assert(out@ =~= s1 + tg);
    let ghost s2 = out@;
    push_str(&mut out, "\n");
    push_bar(&mut out, '-');
    push_str(&mut out, "\n");
    push_body(&mut out, task.body.as_str());
    push_str(&mut out, "\n");
    push_bar(&mut out, '-');
    push_str(&mut out, "Path: ");
    push_str(&mut out, path);
    push_str(&mut out, "\n");
    let ghost c = "\n"@ + rule + "\n"@ + body_text(task.body@) + "\n"@ + rule + "Path: "@ + path@ + "\n"@;
    assert(out@ =~= s2 + c);
    assert(task_view_text(task_id@, bucket@, *task, path@) =~= a + b + tg + c);
    assert(out@ =~= task_view_text(task_id@, bucket@, *task, path@));
    string_from_chars(&out)
}

} // verus!
