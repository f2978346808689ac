//! The git references a task records (its worktree, branch and base commit)
//! and the checks made on them before a command works in the worktree: that
//! they are recorded, that the worktree exists and is on the task's branch,
//! and, when a rejected task is claimed again, that what it recorded is
//! still consistent.

use crate::error::{user_error, BurlError};
use crate::task::TaskFrontmatter;
use crate::text::{chars_of, owned, push_str, str_eq, string_from_chars, trim, trim_chars};
use vstd::prelude::*;

verus! {

broadcast use vstd::string::group_string_axioms;

/// The answer when a task records no worktree.
pub open spec fn no_worktree_text(task_id: Seq<char>) -> Seq<char> {
    "task '"@ + task_id + "' has no worktree recorded.\n\nClaim it first with `burl claim "@ + task_id + "`."@
}

/// The answer when a task records no branch.
pub open spec fn no_branch_text(task_id: Seq<char>) -> Seq<char> {
    "task '"@ + task_id + "' has no branch recorded.\n\nClaim it first with `burl claim "@ + task_id + "`."@
}

/// The answer when a task records no base commit.
pub open spec fn no_base_sha_text(task_id: Seq<char>) -> Seq<char> {
    "task '"@ + task_id
        + "' has no recorded base_sha.\n\nThis task may be in an invalid state. Run `burl doctor` to diagnose."@
}

/// The answer when a task's worktree is gone.
pub open spec fn missing_worktree_text(path: Seq<char>) -> Seq<char> {
    "task worktree does not exist at '"@ + path + "'.\n\nRun `burl doctor` to diagnose and repair this inconsistency."@
}

/// The answer when a task's worktree is on another branch, at submission.
pub open spec fn submit_branch_text(current: Seq<char>, expected: Seq<char>) -> Seq<char> {
    "task worktree is on branch '"@ + current + "', but task expects branch '"@ + expected
        + "'.\n\nRun `burl doctor` to diagnose or re-claim the task."@
}

/// The answer when a task's worktree is on another branch, at approval.
pub open spec fn approve_branch_text(current: Seq<char>, expected: Seq<char>, worktree: Seq<char>) -> Seq<char> {
    "task worktree is on branch '"@ + current + "', but task expects branch '"@ + expected
        + "'.\n\nRemediation: checkout the correct branch with:\ncd "@ + worktree + " && git checkout "@ + expected
}

/// The answer when a task's worktree is gone before an agent runs.
pub open spec fn agent_worktree_text(task_id: Seq<char>, path: Seq<char>) -> Seq<char> {
    "task '"@ + task_id + "' worktree missing at '"@ + path
        + "'.\n\nFix: run `burl doctor` to diagnose/repair worktree metadata."@
}

/// The answer when a task's QA attempts cannot be counted further.
pub open spec fn attempts_exhausted_text() -> Seq<char> {
    "qa_attempts cannot grow any further"@
}

/// The worktree and branch a task records, which submission needs.
pub fn recorded_refs(task_id: &str, fm: &TaskFrontmatter) -> (r: Result<(String, String), BurlError>)
    ensures
        fm.worktree is None ==> (r matches Err(e) && user_error(e, no_worktree_text(task_id@))),
        fm.worktree is Some && fm.branch is None ==> (r matches Err(e) && user_error(e, no_branch_text(task_id@))),
        fm.worktree is Some && fm.branch is Some ==> (r matches Ok((w, b)) && w@ == fm.worktree->0@ && b@
            == fm.branch->0@),
{
    let w = recorded_worktree_path(task_id, fm)?;
    match &fm.branch {
        Some(b) => Ok((w, owned(b.as_str()))),
        None => {
            let mut out = chars_of("task '");
            push_str(&mut out, task_id);
            push_str(&mut out, "' has no branch recorded.\n\nClaim it first with `burl claim ");
            push_str(&mut out, task_id);
            push_str(&mut out, "`.");
            Err(BurlError::UserError(string_from_chars(&out)))
        },
    }
}

/// The worktree a task records.
pub fn recorded_worktree_path(task_id: &str, fm: &TaskFrontmatter) -> (r: Result<String, BurlError>)
    ensures
        fm.worktree is None ==> (r matches Err(e) && user_error(e, no_worktree_text(task_id@))),
        fm.worktree is Some ==> (r matches Ok(w) && w@ == fm.worktree->0@),
{
    match &fm.worktree {
        Some(w) => Ok(owned(w.as_str())),
        None => {
            let mut out = chars_of("task '");
            push_str(&mut out, task_id);
            push_str(&mut out, "' has no worktree recorded.\n\nClaim it first with `burl claim ");
            push_str(&mut out, task_id);
            push_str(&mut out, "`.");
            Err(BurlError::UserError(string_from_chars(&out)))
        },
    }
}

/// The base commit a task records.
pub fn recorded_base_sha(task_id: &str, fm: &TaskFrontmatter) -> (r: Result<String, BurlError>)
    ensures
        fm.base_sha is None ==> (r matches Err(e) && user_error(e, no_base_sha_text(task_id@))),
        fm.base_sha is Some ==> (r matches Ok(s) && s@ == fm.base_sha->0@),
{
    match &fm.base_sha {
        Some(s) => Ok(owned(s.as_str())),
        None => {
            let mut out = chars_of("task '");
            push_str(&mut out, task_id);
            push_str(
                &mut out,
                "' has no recorded base_sha.\n\nThis task may be in an invalid state. Run `burl doctor` to diagnose.",
            );
            Err(BurlError::UserError(string_from_chars(&out)))
        },
    }
}

/// Refuses to go on when the task worktree at `path` does not exist.
pub fn check_worktree_present(path: &str, exists: bool) -> (r: Result<(), BurlError>)
    ensures
        exists <==> r is Ok,
        !exists ==> (r matches Err(e) && user_error(e, missing_worktree_text(path@))),
{
    if exists {
        return Ok(());
    }
    let mut out = chars_of("task worktree does not exist at '");
    push_str(&mut out, path);
    push_str(&mut out, "'.\n\nRun `burl doctor` to diagnose and repair this inconsistency.");
    Err(BurlError::UserError(string_from_chars(&out)))
}

/// Refuses a submission from a worktree on another branch than the task's.
pub fn check_submit_branch(current: &str, expected: &str) -> (r: Result<(), BurlError>)
    ensures
        (current@ == expected@) <==> r is Ok,
        current@ != expected@ ==> (r matches Err(e) && user_error(e, submit_branch_text(current@, expected@))),
{
    if str_eq(current, expected) {
        return Ok(());
    }
    let mut out = chars_of("task worktree is on branch '");
    push_str(&mut out, current);
    push_str(&mut out, "', but task expects branch '");
    push_str(&mut out, expected);
    push_str(&mut out, "'.\n\nRun `burl doctor` to diagnose or re-claim the task.");
    Err(BurlError::UserError(string_from_chars(&out)))
}

/// Refuses an approval from a worktree on another branch than the task's.
pub fn check_approve_branch(current: &str, expected: &str, worktree: &str) -> (r: Result<(), BurlError>)
    ensures
        (current@ == expected@) <==> r is Ok,
        current@ != expected@ ==> (r matches Err(e) && user_error(
            e,
            approve_branch_text(current@, expected@, worktree@),
        )),
{
    if str_eq(current, expected) {
        return Ok(());
    }
    let mut out = chars_of("task worktree is on branch '");
    push_str(&mut out, current);
    push_str(&mut out, "', but task expects branch '");
    push_str(&mut out, expected);
    push_str(&mut out, "'.\n\nRemediation: checkout the correct branch with:\ncd ");
    push_str(&mut out, worktree);
    push_str(&mut out, " && git checkout ");
    push_str(&mut out, expected);
    Err(BurlError::UserError(string_from_chars(&out)))
}

/// Refuses to run an agent when the task worktree at `path` does not exist.
pub fn check_agent_worktree(task_id: &str, path: &str, exists: bool) -> (r: Result<(), BurlError>)
    ensures
        exists <==> r is Ok,
        !exists ==> (r matches Err(e) && user_error(e, agent_worktree_text(task_id@, path@))),
{
    if exists {
        return Ok(());
    }
    let mut out = chars_of("task '");
    push_str(&mut out, task_id);
    push_str(&mut out, "' worktree missing at '");
    push_str(&mut out, path);
    push_str(&mut out, "'.\n\nFix: run `burl doctor` to diagnose/repair worktree metadata.");
    Err(BurlError::UserError(string_from_chars(&out)))
}

/// Refuses to reject a task whose attempt count is at its largest value.
pub fn check_attempts_room(qa_attempts: u32) -> (r: Result<(), BurlError>)
    ensures
        qa_attempts < u32::MAX <==> r is Ok,
        qa_attempts == u32::MAX ==> (r matches Err(e) && user_error(e, attempts_exhausted_text())),
{
    if qa_attempts < u32::MAX {
        Ok(())
    } else {
        Err(BurlError::UserError(owned("qa_attempts cannot grow any further")))
    }
}

/// The failure of a validation run of task `task_id`.
pub fn validation_failed(task_id: &str) -> (e: BurlError)
    ensures
        e matches BurlError::ValidationError(m) && m@ == "validation failed for task "@ + task_id@,
{
    let mut out = chars_of("validation failed for task ");
    push_str(&mut out, task_id);
    BurlError::ValidationError(string_from_chars(&out))
}

// ---------------------------------------------------------------------------
// Claiming a rejected task again
// ---------------------------------------------------------------------------

/// The answer when a re-claimed task's worktree is on another branch.
pub open spec fn reclaim_wrong_branch_text(worktree: Seq<char>, current: Seq<char>, branch: Seq<char>) -> Seq<char> {
    "task has recorded worktree at '"@ + worktree + "' but it's on branch '"@ + current + "', not '"@ + branch
        + "'.\n\nRun `burl doctor` to diagnose and repair this inconsistency."@
}

/// The answer when a re-claimed task's branch exists but its worktree is gone.
pub open spec fn reclaim_missing_worktree_text(branch: Seq<char>, worktree: Seq<char>) -> Seq<char> {
    "task has recorded branch '"@ + branch + "' but worktree at '"@ + worktree
        + "' is missing.\n\nRun `burl doctor` to diagnose and repair this inconsistency,\nor manually recreate the worktree:\n  git worktree add "@
        + worktree + " "@ + branch
}

/// Checks what a task claimed before records, when it is claimed again: an
/// existing worktree must be on the task's branch (`current` is the branch
/// git reports there, `None` when it could not tell), and an existing branch
/// must still have its worktree. Anything else lets the claim go on.
pub fn check_reclaim(
    branch: &str,
    worktree: &str,
    worktree_exists: bool,
    current: Option<&str>,
    branch_exists: bool,
) -> (r: Result<(), BurlError>)
    ensures
        worktree_exists ==> match current {
            Some(c) => if c@ != branch@ {
                r matches Err(e) && user_error(e, reclaim_wrong_branch_text(worktree@, c@, branch@))
            } else {
                r is Ok
            },
            None => r is Ok,
        },
        !worktree_exists && branch_exists ==> (r matches Err(e) && user_error(
            e,
            reclaim_missing_worktree_text(branch@, worktree@),
        )),
        !worktree_exists && !branch_exists ==> r is Ok,
{
    if worktree_exists {
        match current {
            Some(c) => {
                if !str_eq(c, branch) {
                    let mut out = chars_of("task has recorded worktree at '");
                    push_str(&mut out, worktree);
                    push_str(&mut out, "' but it's on branch '");
                    push_str(&mut out, c);
                    push_str(&mut out, "', not '");
                    push_str(&mut out, branch);
                    push_str(&mut out, "'.\n\nRun `burl doctor` to diagnose and repair this inconsistency.");
                    return Err(BurlError::UserError(string_from_chars(&out)));
                }
                Ok(())
            },
            None => Ok(()),
        }
    } else if branch_exists {
        let mut out = chars_of("task has recorded branch '");
        push_str(&mut out, branch);
        push_str(&mut out, "' but worktree at '");
        push_str(&mut out, worktree);
        push_str(
            &mut out,
            "' is missing.\n\nRun `burl doctor` to diagnose and repair this inconsistency,\nor manually recreate the worktree:\n  git worktree add ",
        );
        push_str(&mut out, worktree);
        push_str(&mut out, " ");
        push_str(&mut out, branch);
        Err(BurlError::UserError(string_from_chars(&out)))
    } else {
        Ok(())
    }
}

// ---------------------------------------------------------------------------
// The workflow worktree
// ---------------------------------------------------------------------------

/// The answer when the workflow worktree holds uncommitted changes.
pub open spec fn dirty_workflow_text() -> Seq<char> {
    "workflow worktree has uncommitted changes.\n\nCommit or discard them in the workflow worktree before running this command."@
}

/// Refuses to change the workflow state when `git status --porcelain` of the
/// workflow worktree (`status`) lists any change.
pub fn check_workflow_clean(status: &str) -> (r: Result<(), BurlError>)
    ensures
        trim(status@).len() == 0 <==> r is Ok,
        trim(status@).len() > 0 ==> (r matches Err(e) && user_error(e, dirty_workflow_text())),
{
    if trim_chars(&chars_of(status)).len() == 0 {
        Ok(())
    } else {
        Err(BurlError::UserError(owned(
            "workflow worktree has uncommitted changes.\n\nCommit or discard them in the workflow worktree before running this command.",
        )))
    }
}

} // verus!
