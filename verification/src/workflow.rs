//! The task lifecycle: claim (READY to DOING), submit (DOING to QA), approve
//! (QA to DONE) and reject (QA to READY, or BLOCKED once the attempts run
//! out), as changes of a task file and the decisions taken around them.

use crate::doctor::{metadata_bucket, mismatch_issues, IssueView, TaskRecord};
use crate::error::{user_error, BurlError};
use crate::stamp::{format_utc, utc_text, MAX_STAMP, MIN_STAMP};
use crate::task::{find_task, TaskFile, TaskFrontmatter, TaskIndex, TaskInfo};
use crate::template::{byte_prefix, char_boundary, lemma_encode_len, prefix_at_byte, utf8_len};
use crate::text::{
    chars_of, decimal, owned, push_decimal, push_str, str_eq, string_from_chars, trim, trim_chars,
};
use vstd::prelude::*;

verus! {

broadcast use vstd::string::group_string_axioms;

// ---------------------------------------------------------------------------
// Finding the task a command acts on
// ---------------------------------------------------------------------------

/// A move of a task between buckets.
#[derive(Debug, Clone, Copy, PartialEq, Eq, Structural)]
pub enum Transition {
    /// READY to DOING.
    Claim,
    /// DOING to QA.
    Submit,
    /// QA to DONE.
    Approve,
    /// QA to READY or BLOCKED.
    Reject,
}

impl Transition {
    /// The bucket a task must be in for this transition.
    pub open spec fn source(self) -> Seq<char> {
        match self {
            Transition::Claim => "READY"@,
            Transition::Submit => "DOING"@,
            Transition::Approve => "QA"@,
            Transition::Reject => "QA"@,
        }
    }

    /// The past participle naming this transition in messages.
    pub open spec fn verb(self) -> Seq<char> {
        match self {
            Transition::Claim => "claimed"@,
            Transition::Submit => "submitted"@,
            Transition::Approve => "approved"@,
            Transition::Reject => "rejected"@,
        }
    }

    /// The bucket a task must be in for this transition.
    pub fn source_bucket(self) -> (r: &'static str)
        ensures
            r@ == self.source(),
    {
        match self {
            Transition::Claim => "READY",
            Transition::Submit => "DOING",
            Transition::Approve => "QA",
            Transition::Reject => "QA",
        }
    }

    fn verb_text(self) -> (r: &'static str)
        ensures
            r@ == self.verb(),
    {
        match self {
            Transition::Claim => "claimed",
            Transition::Submit => "submitted",
            Transition::Approve => "approved",
            Transition::Reject => "rejected",
        }
    }
}

/// The error for a task identifier that no task has.
pub open spec fn not_found_text(task_id: Seq<char>) -> Seq<char> {
    "task '"@ + task_id + "' not found.\n\nUse `burl status` to see available tasks."@
}

/// The error for a task that is not in the bucket a transition starts from.
pub open spec fn wrong_bucket_text(t: Transition, task_id: Seq<char>, bucket: Seq<char>) -> Seq<char> {
    "task '"@ + task_id + "' is not in "@ + t.source() + " (currently in "@ + bucket
        + ").\n\nOnly tasks in "@ + t.source() + " can be "@ + t.verb() + "."@ + if t
        == Transition::Reject {
        "\nUse `burl status` to see tasks in each bucket."@
    } else {
        Seq::empty()
    }
}

/// The error for a task identifier that no task has.
pub fn not_found_error(task_id: &str) -> (e: BurlError)
    ensures
        user_error(e, not_found_text(task_id@)),
{
    let mut out: Vec<char> = Vec::new();
    push_str(&mut out, "task '");
    push_str(&mut out, task_id);
    push_str(&mut out, "' not found.\n\nUse `burl status` to see available tasks.");
    BurlError::UserError(string_from_chars(&out))
}

/// Finds the task `task_id` and checks that `t` can move it: it must exist
/// and sit in the transition's source bucket.
pub fn locate_task<'a>(index: &'a TaskIndex, task_id: &str, t: Transition) -> (r: Result<
    &'a TaskInfo,
    BurlError,
>)
    ensures
        match find_task(index.tasks@, task_id@) {
            None => r matches Err(e) && user_error(e, not_found_text(task_id@)),
            Some(info) => if info.bucket@ == t.source() {
                r matches Ok(found) && *found == info
            } else {
                r matches Err(e) && user_error(e, wrong_bucket_text(t, info.id@, info.bucket@))
            },
        },
{
    match index.find(task_id) {
        None => Err(not_found_error(task_id)),
        Some(info) => {
            if str_eq(info.bucket.as_str(), t.source_bucket()) {
                Ok(info)
            } else {
                let mut out: Vec<char> = Vec::new();
                push_str(&mut out, "task '");
                push_str(&mut out, info.id.as_str());
                push_str(&mut out, "' is not in ");
                push_str(&mut out, t.source_bucket());
                push_str(&mut out, " (currently in ");
                push_str(&mut out, info.bucket.as_str());
                push_str(&mut out, ").\n\nOnly tasks in ");
                push_str(&mut out, t.source_bucket());
                push_str(&mut out, " can be ");
                push_str(&mut out, t.verb_text());
                push_str(&mut out, ".");
                if t == Transition::Reject {
                    push_str(&mut out, "\nUse `burl status` to see tasks in each bucket.");
                } else {
                    assert(out@ + Seq::<char>::empty() =~= out@);
                }
                Err(BurlError::UserError(string_from_chars(&out)))
            }
        },
    }
}

// ---------------------------------------------------------------------------
// Task body
// ---------------------------------------------------------------------------

/// A body with `entry` appended to its QA Report, which is the last section of
/// every task file that `burl add` writes: the entry goes at the end of the
/// body, after a blank-line separator.
pub open spec fn qa_appended(body: Seq<char>, entry: Seq<char>) -> Seq<char> {
    body + "\n"@ + entry
}

/// Appends `entry` to the QA Report of `task`.
pub fn append_to_qa_report(task: &mut TaskFile, entry: &str)
    ensures
        final(task).frontmatter == old(task).frontmatter,
        final(task).body@ == qa_appended(old(task).body@, entry@),
{
    let mut out = chars_of(task.body.as_str());
    push_str(&mut out, "\n");
    push_str(&mut out, entry);
    task.body = string_from_chars(&out);
}

// ---------------------------------------------------------------------------
// Claim
// ---------------------------------------------------------------------------

/// A task worktree as set up for a claim.
#[derive(Debug, Clone)]
pub struct WorktreeInfo {
    /// Path of the worktree.
    pub path: String,
    /// Branch checked out in the worktree.
    pub branch: String,
    /// Commit the branch was created from.
    pub base_sha: String,
    /// Whether an existing branch and worktree were reused.
    pub reused: bool,
}

/// What a claim has created, so that it can be undone if a later step fails.
#[derive(Debug)]
pub struct ClaimTransaction {
    /// Whether the branch was created by this claim.
    pub branch_created: bool,
    /// The branch name.
    pub branch_name: String,
    /// The worktree set up by this claim.
    pub worktree_info: Option<WorktreeInfo>,
}

impl ClaimTransaction {
    /// A claim that has created nothing yet.
    pub fn new() -> (r: ClaimTransaction)
        ensures
            !r.branch_created,
            r.branch_name@ == Seq::<char>::empty(),
            r.worktree_info is None,
    {
        ClaimTransaction { branch_created: false, branch_name: String::new(), worktree_info: None }
    }

    /// Records the worktree set up by the claim. Its branch counts as created
    /// by the claim when it did not exist before and was not reused.
    pub fn record_setup(&mut self, info: WorktreeInfo, branch_existed_before: bool)
        ensures
            final(self).branch_name@ == info.branch@,
            final(self).branch_created == (!branch_existed_before && !info.reused),
            final(self).worktree_info == Some(info),
    {
        self.branch_name = owned(info.branch.as_str());
        self.branch_created = !branch_existed_before && !info.reused;
        self.worktree_info = Some(info);
    }

    /// Rolls the claim back: the branch to delete, if the claim created one.
    pub fn rollback(self) -> (r: Option<String>)
        ensures
            match r {
                Some(b) => self.branch_created && self.branch_name@.len() > 0 && b@ == self.branch_name@,
                None => !self.branch_created || self.branch_name@.len() == 0,
            },
    {
        let name = chars_of(self.branch_name.as_str());
        if self.branch_created && name.len() > 0 {
            Some(self.branch_name)
        } else {
            None
        }
    }
}

/// The base commit recorded by a claim: a reused worktree keeps the base the
/// task already records; otherwise the base is the fresh one.
pub fn claim_base_sha(reused: bool, existing: &Option<String>, fresh: &str) -> (r: String)
    ensures
        r@ == if reused && existing is Some {
            existing->0@
        } else {
            fresh@
        },
{
    if reused {
        if let Some(sha) = existing {
            return owned(sha.as_str());
        }
    }
    owned(fresh)
}

/// Records a claim in the task's metadata: who claimed it and when, and its
/// branch, worktree and base commit. Nothing else changes.
pub fn apply_claim(
    fm: &mut TaskFrontmatter,
    assignee: String,
    now: i64,
    branch: String,
    worktree: String,
    base_sha: String,
)
    ensures
        *final(fm) == (TaskFrontmatter {
            assigned_to: Some(assignee),
            started_at: Some(now),
            branch: Some(branch),
            worktree: Some(worktree),
            base_sha: Some(base_sha),
            ..*old(fm)
        }),
{
    fm.assigned_to = Some(assignee);
    fm.started_at = Some(now);
    fm.branch = Some(branch);
    fm.worktree = Some(worktree);
    fm.base_sha = Some(base_sha);
}

// ---------------------------------------------------------------------------
// Submit
// ---------------------------------------------------------------------------

/// Identifiers of the tasks in `bucket`, in index order.
pub open spec fn ids_in_bucket(tasks: Seq<TaskInfo>, bucket: Seq<char>) -> Seq<Seq<char>>
    decreases tasks.len(),
{
    if tasks.len() == 0 {
        Seq::empty()
    } else {
        ids_in_bucket(tasks.drop_last(), bucket) + if tasks.last().bucket@ == bucket {
            seq![tasks.last().id@]
        } else {
            Seq::empty()
        }
    }
}

/// Items joined by `, `.
pub open spec fn comma_list(items: Seq<Seq<char>>) -> Seq<char> {
    crate::context::join(items, ", "@)
}

/// The task a `submit` acts on: the one named, else the only task in DOING.
pub open spec fn submit_target(task_id: Option<Seq<char>>, tasks: Seq<TaskInfo>) -> Result<Seq<char>, Seq<char>> {
    match task_id {
        Some(id) => Ok(id),
        None => {
            let doing = ids_in_bucket(tasks, "DOING"@);
            if doing.len() == 0 {
                Err("no tasks in DOING. Claim a task first with `burl claim`."@)
            } else if doing.len() > 1 {
                Err(
                    "multiple tasks in DOING: "@ + comma_list(doing)
                        + ".\n\nSpecify which task to submit: `burl submit <TASK-ID>`"@,
                )
            } else {
                Ok(doing[0])
            }
        },
    }
}

/// Resolves the task a `submit` acts on: the one named, else the only task in DOING.
pub fn resolve_submit_task(task_id: Option<&str>, index: &TaskIndex) -> (r: Result<String, BurlError>)
    ensures
        match submit_target(
            match task_id {
                Some(s) => Some(s@),
                None => None,
            },
            index.tasks@,
        ) {
            Ok(id) => r matches Ok(s) && s@ == id,
            Err(m) => r matches Err(e) && user_error(e, m),
        },
{
    if let Some(id) = task_id {
        return Ok(owned(id));
    }
    let mut doing: Vec<String> = Vec::new();
    let mut i: usize = 0;
    while i < index.tasks.len()
        invariant
            i <= index.tasks@.len(),
            crate::context::views(doing@) == ids_in_bucket(index.tasks@.take(i as int), "DOING"@),
        decreases index.tasks@.len() - i,
    {
        let ghost prev = doing@;
        assert(index.tasks@.take(i + 1).drop_last() =~= index.tasks@.take(i as int));
        if str_eq(index.tasks[i].bucket.as_str(), "DOING") {
            doing.push(owned(index.tasks[i].id.as_str()));
            assert(crate::context::views(doing@) =~= crate::context::views(prev) + seq![
                index.tasks@[i as int].id@,
            ]);
        } else {
            assert(crate::context::views(prev) + Seq::<Seq<char>>::empty() =~= crate::context::views(
                prev,
            ));
        }
        i = i + 1;
    }
    assert(index.tasks@.take(index.tasks@.len() as int) =~= index.tasks@);
    if doing.len() == 0 {
        return Err(
            BurlError::UserError(owned("no tasks in DOING. Claim a task first with `burl claim`.")),
        );
    }
    if doing.len() > 1 {
        let mut out: Vec<char> = Vec::new();
        push_str(&mut out, "multiple tasks in DOING: ");
        let list = crate::context::join_strings(&doing, ", ");
        push_str(&mut out, list.as_str());
        push_str(&mut out, ".\n\nSpecify which task to submit: `burl submit <TASK-ID>`");
        return Err(BurlError::UserError(string_from_chars(&out)));
    }
    Ok(owned(doing[0].as_str()))
}

/// Records a submission in the task's metadata. Nothing else changes.
pub fn apply_submit(fm: &mut TaskFrontmatter, now: i64)
    ensures
        *final(fm) == (TaskFrontmatter { submitted_at: Some(now), ..*old(fm) }),
{
    fm.submitted_at = Some(now);
}

/// The first eight bytes of a commit hash (all of it when shorter).
pub open spec fn short_sha(sha: Seq<char>) -> Seq<char> {
    if utf8_len(sha) <= 8 {
        sha
    } else {
        prefix_at_byte(sha, 8)
    }
}

/// The error for a task branch with no commit since its base.
pub open spec fn no_commits_text(base_sha: Seq<char>, worktree: Seq<char>, task_id: Seq<char>) -> Seq<char> {
    "no commits on task branch since base_sha ("@ + short_sha(base_sha)
        + ").\n\nMake changes and commit them before submitting:\n1. cd "@ + worktree
        + "\n2. Make your changes\n3. git add . && git commit -m \"Your message\"\n4. burl submit "@
        + task_id
}

/// The error for a task branch with no commit since its base.
pub fn no_commits_error(base_sha: &str, worktree: &str, task_id: &str) -> (e: BurlError)
    requires
        utf8_len(base_sha@) > 8 ==> char_boundary(base_sha@, 8),
    ensures
        user_error(e, no_commits_text(base_sha@, worktree@, task_id@)),
{
    let n = base_sha.as_bytes().len();
    proof {
        lemma_encode_len(base_sha@);
    }
    let short = if n <= 8 {
        owned(base_sha)
    } else {
        byte_prefix(base_sha, 8)
    };
    let mut out: Vec<char> = Vec::new();
    push_str(&mut out, "no commits on task branch since base_sha (");
    push_str(&mut out, short.as_str());
    push_str(&mut out, ").\n\nMake changes and commit them before submitting:\n1. cd ");
    push_str(&mut out, worktree);
    push_str(
        &mut out,
        "\n2. Make your changes\n3. git add . && git commit -m \"Your message\"\n4. burl submit ",
    );
    push_str(&mut out, task_id);
    BurlError::UserError(string_from_chars(&out))
}

// ---------------------------------------------------------------------------
// Reject
// ---------------------------------------------------------------------------

/// The error for an empty rejection reason.
pub open spec fn empty_reason_text() -> Seq<char> {
    "rejection reason cannot be empty.\n\nUsage: burl reject TASK-ID --reason \"detailed reason for rejection\"\n\nThe reason should explain what needs to be fixed so the task can be reworked."@
}

/// The reason given for a rejection, trimmed; it must not be blank.
pub fn rejection_reason(reason: &str) -> (r: Result<String, BurlError>)
    ensures
        trim(reason@).len() > 0 ==> (r matches Ok(s) && s@ == trim(reason@)),
        trim(reason@).len() == 0 ==> (r matches Err(e) && user_error(e, empty_reason_text())),
{
    let rc = chars_of(reason);
    let t = trim_chars(&rc);
    if t.len() == 0 {
        return Err(
            BurlError::UserError(
                owned(
                    "rejection reason cannot be empty.\n\nUsage: burl reject TASK-ID --reason \"detailed reason for rejection\"\n\nThe reason should explain what needs to be fixed so the task can be reworked.",
                ),
            ),
        );
    }
    Ok(string_from_chars(&t))
}

/// Where a rejected task goes and why.
#[derive(Debug, Clone)]
pub struct RejectOutcome {
    /// `READY`, or `BLOCKED` once the maximum number of QA attempts is reached.
    pub destination: String,
    /// Why the task is blocked, when it is.
    pub blocked_reason: Option<String>,
    /// QA attempts after this rejection.
    pub qa_attempts: u32,
}

/// The QA Report entry of a rejection.
pub open spec fn rejection_entry(stamp: Seq<char>, actor: Seq<char>, attempt: nat, reason: Seq<char>) -> Seq<char> {
    "### Rejection: "@ + stamp + "\n\n**Actor:** "@ + actor + "\n**Attempt:** "@ + decimal(attempt)
        + "\n**Reason:** "@ + reason + "\n"@
}

/// The priority after a retry: `high` when boosting, else unchanged.
pub open spec fn retry_priority(priority: Seq<char>, boost: bool) -> Seq<char> {
    if boost {
        "high"@
    } else {
        priority
    }
}

/// Rejects a task in QA: one more QA attempt, the reason appended to its QA
/// Report, `submitted_at` cleared for rework, and the task sent back to READY
/// (with its priority raised to `high` when `boost` is set) or, once the
/// attempts reach `qa_max_attempts`, to BLOCKED. Its branch, worktree and base
/// commit are kept for rework.
pub fn apply_reject(
    task: &mut TaskFile,
    reason: &str,
    actor: &str,
    now: i64,
    qa_max_attempts: u32,
    boost: bool,
) -> (r: RejectOutcome)
    requires
        old(task).frontmatter.qa_attempts < u32::MAX,
        MIN_STAMP <= now <= MAX_STAMP,
    ensures
        r.qa_attempts == old(task).frontmatter.qa_attempts + 1,
        r.qa_attempts >= qa_max_attempts ==> r.destination@ == "BLOCKED"@ && (r.blocked_reason
            matches Some(b) && b@ == "max QA attempts reached ("@ + decimal(r.qa_attempts as nat) + "/"@
            + decimal(qa_max_attempts as nat) + ")"@),
        r.qa_attempts < qa_max_attempts ==> r.destination@ == "READY"@ && r.blocked_reason is None,
        final(task).frontmatter == (TaskFrontmatter {
            qa_attempts: r.qa_attempts,
            submitted_at: None,
            priority: final(task).frontmatter.priority,
            ..old(task).frontmatter
        }),
        final(task).frontmatter.priority@ == if r.qa_attempts < qa_max_attempts {
            retry_priority(old(task).frontmatter.priority@, boost)
        } else {
            old(task).frontmatter.priority@
        },
        final(task).body@ == qa_appended(
            old(task).body@,
            rejection_entry(utc_text(now as int), actor@, r.qa_attempts as nat, reason@),
        ),
{
    task.frontmatter.qa_attempts = task.frontmatter.qa_attempts + 1;
    let attempts = task.frontmatter.qa_attempts;
    let stamp = format_utc(now);
    let mut entry: Vec<char> = Vec::new();
    push_str(&mut entry, "### Rejection: ");
    push_str(&mut entry, stamp.as_str());
    push_str(&mut entry, "\n\n**Actor:** ");
    push_str(&mut entry, actor);
    push_str(&mut entry, "\n**Attempt:** ");
    push_decimal(&mut entry, attempts as u64);
    push_str(&mut entry, "\n**Reason:** ");
    push_str(&mut entry, reason);
    push_str(&mut entry, "\n");
    let entry_text = string_from_chars(&entry);
    append_to_qa_report(task, entry_text.as_str());
    let outcome = if attempts >= qa_max_attempts {
        let mut b: Vec<char> = Vec::new();
        push_str(&mut b, "max QA attempts reached (");
        push_decimal(&mut b, attempts as u64);
        push_str(&mut b, "/");
        push_decimal(&mut b, qa_max_attempts as u64);
        push_str(&mut b, ")");
        RejectOutcome {
            destination: owned("BLOCKED"),
            blocked_reason: Some(string_from_chars(&b)),
            qa_attempts: attempts,
        }
    } else {
        if boost && !str_eq(task.frontmatter.priority.as_str(), "high") {
            task.frontmatter.priority = owned("high");
        }
        RejectOutcome { destination: owned("READY"), blocked_reason: None, qa_attempts: attempts }
    };
    task.frontmatter.submitted_at = None;
    outcome
}

// ---------------------------------------------------------------------------
// Approve
// ---------------------------------------------------------------------------

/// The QA Report entry of an approval.
pub open spec fn approval_entry(stamp: Seq<char>) -> Seq<char> {
    "### Approved: "@ + stamp + "\n\n**Result:** Merged to main\n"@
}

/// Completes an approval: `completed_at` set and the approval appended to the
/// QA Report. Nothing else changes.
pub fn apply_approval(task: &mut TaskFile, now: i64)
    requires
        MIN_STAMP <= now <= MAX_STAMP,
    ensures
        final(task).frontmatter == (TaskFrontmatter { completed_at: Some(now), ..old(task).frontmatter }),
        final(task).body@ == qa_appended(old(task).body@, approval_entry(utc_text(now as int))),
{
    task.frontmatter.completed_at = Some(now);
    let stamp = format_utc(now);
    let mut entry: Vec<char> = Vec::new();
    push_str(&mut entry, "### Approved: ");
    push_str(&mut entry, stamp.as_str());
    push_str(&mut entry, "\n\n**Result:** Merged to main\n");
    let entry_text = string_from_chars(&entry);
    append_to_qa_report(task, entry_text.as_str());
}

/// The QA Report entry of an approval that failed and sent the task back.
pub open spec fn failed_approval_entry(stamp: Seq<char>, reason: Seq<char>) -> Seq<char> {
    "### Rejection: "@ + stamp + "\n\n**Reason:** "@ + reason + "\n"@
}

/// Sends a task whose approval failed (rebase conflict, failed validation,
/// merge that is not a fast-forward) back to READY: the reason appended to the
/// QA Report, one more QA attempt, `submitted_at` cleared, and the priority
/// raised to `high` when `boost` is set and the attempts have reached
/// `qa_max_attempts`. The approval then fails with the returned error.
pub fn apply_failed_approval(
    task: &mut TaskFile,
    reason: &str,
    now: i64,
    qa_max_attempts: u32,
    boost: bool,
) -> (e: BurlError)
    requires
        old(task).frontmatter.qa_attempts < u32::MAX,
        MIN_STAMP <= now <= MAX_STAMP,
    ensures
        e matches BurlError::GitError(m) && m@ == "approval rejected: "@ + reason@,
        final(task).frontmatter == (TaskFrontmatter {
            qa_attempts: (old(task).frontmatter.qa_attempts + 1) as u32,
            submitted_at: None,
            priority: final(task).frontmatter.priority,
            ..old(task).frontmatter
        }),
        final(task).frontmatter.priority@ == if old(task).frontmatter.qa_attempts + 1 >= qa_max_attempts {
            retry_priority(old(task).frontmatter.priority@, boost)
        } else {
            old(task).frontmatter.priority@
        },
        final(task).body@ == qa_appended(
            old(task).body@,
            failed_approval_entry(utc_text(now as int), reason@),
        ),
{
    let stamp = format_utc(now);
    let mut entry: Vec<char> = Vec::new();
    push_str(&mut entry, "### Rejection: ");
    push_str(&mut entry, stamp.as_str());
    push_str(&mut entry, "\n\n**Reason:** ");
    push_str(&mut entry, reason);
    push_str(&mut entry, "\n");
    let entry_text = string_from_chars(&entry);
    append_to_qa_report(task, entry_text.as_str());
    task.frontmatter.qa_attempts = task.frontmatter.qa_attempts + 1;
    if task.frontmatter.qa_attempts >= qa_max_attempts {
        if boost && !str_eq(task.frontmatter.priority.as_str(), "high") {
            task.frontmatter.priority = owned("high");
        }
    }
    task.frontmatter.submitted_at = None;
    let mut m: Vec<char> = Vec::new();
    push_str(&mut m, "approval rejected: ");
    push_str(&mut m, reason);
    BurlError::GitError(string_from_chars(&m))
}

// ---------------------------------------------------------------------------
// Workflow commits and actors
// ---------------------------------------------------------------------------

/// The commit message recording a task event on the workflow branch
/// (`Add`, `Claim`, `Submit`, `Approve`).
pub open spec fn commit_text(action: Seq<char>, task_id: Seq<char>, title: Seq<char>) -> Seq<char> {
    action + " task "@ + task_id + ": "@ + title
}

/// The commit message recording a task event on the workflow branch.
pub fn commit_message(action: &str, task_id: &str, title: &str) -> (r: String)
    ensures
        r@ == commit_text(action@, task_id@, title@),
{
    let mut out = chars_of(action);
    push_str(&mut out, " task ");
    push_str(&mut out, task_id);
    push_str(&mut out, ": ");
    push_str(&mut out, title);
    string_from_chars(&out)
}

/// A rejection reason shortened for a commit message: up to 50 bytes kept,
/// else its first 47 bytes and `...`.
pub open spec fn short_reason(reason: Seq<char>) -> Seq<char> {
    if utf8_len(reason) > 50 {
        prefix_at_byte(reason, 47) + "..."@
    } else {
        reason
    }
}

/// The commit message of a rejection sending a task to `destination`.
pub open spec fn reject_commit_text(task_id: Seq<char>, destination: Seq<char>, reason: Seq<char>) -> Seq<char> {
    "Reject task "@ + task_id + " -> "@ + destination + ": "@ + short_reason(reason)
}

/// The commit message of a rejection sending a task to `destination`.
pub fn reject_commit_message(task_id: &str, destination: &str, reason: &str) -> (r: String)
    requires
        utf8_len(reason@) > 50 ==> char_boundary(reason@, 47),
    ensures
        r@ == reject_commit_text(task_id@, destination@, reason@),
{
    let mut out = chars_of("Reject task ");
    push_str(&mut out, task_id);
    push_str(&mut out, " -> ");
    push_str(&mut out, destination);
    push_str(&mut out, ": ");
    let short = crate::agent::truncate_command(reason, 50);
    push_str(&mut out, short.as_str());
    string_from_chars(&out)
}

/// The commit message of a failed approval that sent a task back.
pub fn failed_approval_commit_message(task_id: &str, reason: &str) -> (r: String)
    requires
        utf8_len(reason@) > 50 ==> char_boundary(reason@, 47),
    ensures
        r@ == "Reject task "@ + task_id@ + " (approve): "@ + short_reason(reason@),
{
    let mut out = chars_of("Reject task ");
    push_str(&mut out, task_id);
    push_str(&mut out, " (approve): ");
    let short = crate::agent::truncate_command(reason, 50);
    push_str(&mut out, short.as_str());
    string_from_chars(&out)
}

/// Who acts, as recorded in task metadata and QA Reports: `user@host`, each
/// part `unknown` when it could not be found.
pub fn actor_string(user: Option<&str>, host: Option<&str>) -> (r: String)
    ensures
        r@ == match user {
            Some(u) => u@,
            None => "unknown"@,
        } + "@"@ + match host {
            Some(h) => h@,
            None => "unknown"@,
        },
{
    let mut out: Vec<char> = Vec::new();
    match user {
        Some(u) => push_str(&mut out, u),
        None => push_str(&mut out, "unknown"),
    }
    push_str(&mut out, "@");
    match host {
        Some(h) => push_str(&mut out, h),
        None => push_str(&mut out, "unknown"),
    }
    string_from_chars(&out)
}

// ---------------------------------------------------------------------------
// Adding a task
// ---------------------------------------------------------------------------

/// The body of a new task file.
pub const TASK_BODY_TEMPLATE: &'static str = "
## Objective
<!-- Single sentence describing what \"done\" looks like -->

## Acceptance Criteria
- [ ] Criterion 1 (specific, verifiable)
- [ ] Criterion 2
- [ ] Criterion 3

## Context
<!-- Relevant notes/links, constraints, file references -->

## Implementation Notes
<!-- Worker fills -->

## QA Report
<!-- Validator fills (tool can append) -->
";

/// A new task in READY: the given identifier, title, (already validated)
/// priority, creation time and scope, no claim yet, and the standard body.
pub fn new_task(
    id: String,
    title: String,
    priority: String,
    created: i64,
    affects: Vec<String>,
    affects_globs: Vec<String>,
    must_not_touch: Vec<String>,
    depends_on: Vec<String>,
    tags: Vec<String>,
) -> (r: TaskFile)
    ensures
        r.frontmatter == (TaskFrontmatter {
            id,
            title,
            priority,
            created: Some(created),
            assigned_to: None,
            qa_attempts: 0,
            started_at: None,
            submitted_at: None,
            completed_at: None,
            worktree: None,
            branch: None,
            base_sha: None,
            affects,
            affects_globs,
            must_not_touch,
            depends_on,
            tags,
            agent: None,
            validation_profile: None,
        }),
        r.body@ == TASK_BODY_TEMPLATE@,
{
    TaskFile {
        frontmatter: TaskFrontmatter {
            id,
            title,
            priority,
            created: Some(created),
            assigned_to: None,
            qa_attempts: 0,
            started_at: None,
            submitted_at: None,
            completed_at: None,
            worktree: None,
            branch: None,
            base_sha: None,
            affects,
            affects_globs,
            must_not_touch,
            depends_on,
            tags,
            agent: None,
            validation_profile: None,
        },
        body: owned(TASK_BODY_TEMPLATE),
    }
}

// ---------------------------------------------------------------------------
// Transitions and the bucket a task's metadata calls for
// ---------------------------------------------------------------------------

/// A task whose bucket is the one its metadata calls for raises no
/// bucket-mismatch issue.
pub proof fn lemma_consistent_task_has_no_mismatch(t: TaskRecord)
    requires
        metadata_bucket(t.frontmatter) == Some(t.info.bucket@),
    ensures
        mismatch_issues(t) == Seq::<IssueView>::empty(),
{
    reveal_strlit("READY");
    reveal_strlit("DOING");
    reveal_strlit("QA");
    reveal_strlit("DONE");
    let b = t.info.bucket@;
    assert("DOING"@ != "READY"@) by {
        assert("DOING"@[0] != "READY"@[0]);
    }
    assert("QA"@ != "READY"@) by {
        assert("QA"@.len() != "READY"@.len());
    }
    assert("DONE"@ != "READY"@) by {
        assert("DONE"@[0] != "READY"@[0]);
    }
    assert("QA"@ != "DOING"@) by {
        assert("QA"@.len() != "DOING"@.len());
    }
    assert("DONE"@ != "DOING"@) by {
        assert("DONE"@[2] != "DOING"@[2]);
    }
    assert("DONE"@ != "QA"@) by {
        assert("DONE"@.len() != "QA"@.len());
    }
    if b == "DOING"@ {
        assert(t.frontmatter.submitted_at is None && t.frontmatter.completed_at is None);
        assert(mismatch_issues(t) =~= Seq::<IssueView>::empty());
    } else if b == "QA"@ {
        assert(t.frontmatter.completed_at is None);
    }
}

/// After a claim of a task neither submitted nor completed, its metadata
/// calls for DOING, where the claim moves it.
pub proof fn lemma_claim_calls_for_doing(
    fm: TaskFrontmatter,
    assignee: String,
    now: i64,
    branch: String,
    worktree: String,
    base_sha: String,
)
    requires
        fm.submitted_at is None,
        fm.completed_at is None,
    ensures
        metadata_bucket(
            TaskFrontmatter {
                assigned_to: Some(assignee),
                started_at: Some(now),
                branch: Some(branch),
                worktree: Some(worktree),
                base_sha: Some(base_sha),
                ..fm
            },
        ) == Some("DOING"@),
{
}

/// After a submission of a task not completed, its metadata calls for QA,
/// where the submission moves it.
pub proof fn lemma_submit_calls_for_qa(fm: TaskFrontmatter, now: i64)
    requires
        fm.completed_at is None,
    ensures
        metadata_bucket(TaskFrontmatter { submitted_at: Some(now), ..fm }) == Some("QA"@),
{
}

/// After an approval, a task's metadata calls for DONE, where the approval moves it.
pub proof fn lemma_approval_calls_for_done(fm: TaskFrontmatter, now: i64)
    ensures
        metadata_bucket(TaskFrontmatter { completed_at: Some(now), ..fm }) == Some("DONE"@),
{
}

} // verus!
