//! The steps of an approval, as a state machine.
//!
//! An approval alternates git operations with decisions. The caller runs the
//! step it is given, reports how it went, and asks for the next one:
//!
//! - `rebase_ff_only`: fetch, rebase onto the remote main branch, validate,
//!   check out main, merge `--ff-only`, push (if configured), clean up, complete;
//! - `ff_only`: fetch, check that the branch descends from the remote main
//!   branch, validate, bring local main up to date, check out main, merge
//!   `--ff-only`, push (if configured), clean up, complete;
//! - `manual` is refused.
//!
//! A failed rebase, ancestry check, validation or merge rejects the task back
//! to READY; a failed fetch, checkout or push is a git error; a failed clean-up
//! still completes the approval.

use crate::error::BurlError;
use crate::text::{chars_of, ends_with, push_str, string_from_chars};
use vstd::prelude::*;

verus! {

broadcast use vstd::string::group_string_axioms;

/// How approved work reaches the main branch.
#[derive(Debug, Clone, Copy, PartialEq, Eq, Structural)]
pub enum MergeStrategy {
    /// Rebase the task branch onto the remote main branch, then fast-forward.
    RebaseFfOnly,
    /// Fast-forward only; the branch must already descend from the remote main branch.
    FfOnly,
    /// Merge by hand (not supported).
    Manual,
}

/// A step of an approval.
#[derive(Debug, Clone, Copy, PartialEq, Eq, Structural)]
pub enum ApproveStep {
    /// `git fetch <remote> <main>` in the repository.
    Fetch,
    /// `git rebase <remote>/<main>` in the task worktree.
    Rebase,
    /// `git merge-base --is-ancestor <remote>/<main> HEAD` in the task worktree.
    CheckAncestor,
    /// The validation of the task against `<remote>/<main>..HEAD`.
    Validate,
    /// `git fetch <remote> <main>:<main>` (its outcome does not matter).
    SyncMain,
    /// `git checkout <main>` in the repository.
    CheckoutMain,
    /// `git merge --ff-only <branch>` in the repository.
    Merge,
    /// `git push <remote> <main>`.
    Push,
    /// Removal of the task worktree and branch (best effort).
    Cleanup,
    /// Recording the approval: the task moves from QA to DONE.
    Complete,
}

/// What to do after a step.
#[derive(Debug, Clone)]
pub enum ApproveNext {
    /// Run this step.
    Run(ApproveStep),
    /// Send the task back to READY for this reason; abort the rebase first
    /// when asked, and append the validation summary to the QA report when asked.
    Reject { reason: String, abort_rebase: bool, append_summary: bool },
    /// Stop with this error.
    Fail(BurlError),
    /// The approval is complete.
    Finished,
}

/// What a next action is, over plain values.
pub enum NextView {
    Run(ApproveStep),
    Reject(Seq<char>, bool, bool),
    GitFailure(Seq<char>),
    OtherFailure,
    Finished,
}

impl ApproveNext {
    pub open spec fn view_of(&self) -> NextView {
        match self {
            ApproveNext::Run(s) => NextView::Run(*s),
            ApproveNext::Reject { reason, abort_rebase, append_summary } => NextView::Reject(
                reason@,
                *abort_rebase,
                *append_summary,
            ),
            ApproveNext::Fail(BurlError::GitError(m)) => NextView::GitFailure(m@),
            ApproveNext::Fail(_) => NextView::OtherFailure,
            ApproveNext::Finished => NextView::Finished,
        }
    }
}

/// The step that follows validation, the merge and the push.
pub open spec fn after_validation(strategy: MergeStrategy) -> ApproveStep {
    if strategy == MergeStrategy::FfOnly {
        ApproveStep::SyncMain
    } else {
        ApproveStep::CheckoutMain
    }
}

/// The next action after `step` ended with `outcome` (`Ok`, or `Err` with
/// git's message), for the given strategy, push setting, remote and main branch.
pub open spec fn next_view(
    strategy: MergeStrategy,
    step: ApproveStep,
    outcome: Result<(), Seq<char>>,
    push_main: bool,
    remote: Seq<char>,
    main: Seq<char>,
) -> NextView {
    match step {
        ApproveStep::Fetch => match outcome {
            Ok(_) => NextView::Run(
                if strategy == MergeStrategy::FfOnly {
                    ApproveStep::CheckAncestor
                } else {
                    ApproveStep::Rebase
                },
            ),
            Err(e) => NextView::GitFailure("failed to fetch "@ + remote + "/"@ + main + ": "@ + e),
        },
        ApproveStep::Rebase => match outcome {
            Ok(_) => NextView::Run(ApproveStep::Validate),
            Err(e) => NextView::Reject("rebase conflict: "@ + e, true, false),
        },
        ApproveStep::CheckAncestor => match outcome {
            Ok(_) => NextView::Run(ApproveStep::Validate),
            Err(_) => NextView::Reject("branch behind "@ + remote + "/"@ + main + "; rebase required"@, false, false),
        },
        ApproveStep::Validate => match outcome {
            Ok(_) => NextView::Run(after_validation(strategy)),
            Err(_) => NextView::Reject(
                if strategy == MergeStrategy::FfOnly {
                    "validation failed"@
                } else {
                    "validation failed after rebase"@
                },
                false,
                true,
            ),
        },
        ApproveStep::SyncMain => NextView::Run(ApproveStep::CheckoutMain),
        ApproveStep::CheckoutMain => match outcome {
            Ok(_) => NextView::Run(ApproveStep::Merge),
            Err(e) => NextView::GitFailure("failed to checkout "@ + main + ": "@ + e),
        },
        ApproveStep::Merge => match outcome {
            Ok(_) => NextView::Run(
                if push_main {
                    ApproveStep::Push
                } else {
                    ApproveStep::Cleanup
                },
            ),
            Err(e) => NextView::Reject("non-FF merge required: "@ + e, false, false),
        },
        ApproveStep::Push => match outcome {
            Ok(_) => NextView::Run(ApproveStep::Cleanup),
            Err(e) => NextView::GitFailure(
                "failed to push "@ + main + " to "@ + remote + ": "@ + e
                    + "\n\nThe merge was successful locally. You can push manually with:\ngit push "@ + remote + " "@
                    + main,
            ),
        },
        ApproveStep::Cleanup => NextView::Run(ApproveStep::Complete),
        ApproveStep::Complete => NextView::Finished,
    }
}

/// The text of an outcome: its error message, if any.
pub open spec fn outcome_view(outcome: Result<(), String>) -> Result<(), Seq<char>> {
    match outcome {
        Ok(_) => Ok(()),
        Err(e) => Err(e@),
    }
}

/// What `manual` is answered.
pub open spec fn manual_refusal() -> Seq<char> {
    "merge_strategy 'manual' is not implemented in V1.\n\nUse 'rebase_ff_only' (default) or 'ff_only' instead, or perform the merge manually."@
}

/// The first step of an approval: a fetch, unless the strategy is refused.
pub fn start_approval(strategy: MergeStrategy) -> (r: Result<ApproveStep, BurlError>)
    ensures
        strategy == MergeStrategy::Manual ==> (r matches Err(BurlError::UserError(m)) && m@ == manual_refusal()),
        strategy != MergeStrategy::Manual ==> r == Ok::<ApproveStep, BurlError>(ApproveStep::Fetch),
{
    match strategy {
        MergeStrategy::Manual => Err(BurlError::UserError(string_from_chars(&chars_of(
            "merge_strategy 'manual' is not implemented in V1.\n\nUse 'rebase_ff_only' (default) or 'ff_only' instead, or perform the merge manually.",
        )))),
        _ => Ok(ApproveStep::Fetch),
    }
}

/// Decides what follows a step of an approval.
pub fn next_approval_action(
    strategy: MergeStrategy,
    step: ApproveStep,
    outcome: &Result<(), String>,
    push_main: bool,
    remote: &str,
    main: &str,
) -> (r: ApproveNext)
    requires
        strategy != MergeStrategy::Manual,
    ensures
        r.view_of() == next_view(strategy, step, outcome_view(*outcome), push_main, remote@, main@),
        step == ApproveStep::Merge && outcome is Ok ==> (r matches ApproveNext::Run(s) && s == (if push_main {
            ApproveStep::Push
        } else {
            ApproveStep::Cleanup
        })),
        step == ApproveStep::Push && outcome is Ok ==> (r matches ApproveNext::Run(s) && s == ApproveStep::Cleanup),
{
    proof {
        lemma_merge_then_push(strategy, push_main, remote@, main@);
    }
    match step {
        ApproveStep::Fetch => match outcome {
            Ok(_) => ApproveNext::Run(
                if strategy == MergeStrategy::FfOnly {
                    ApproveStep::CheckAncestor
                } else {
                    ApproveStep::Rebase
                },
            ),
            Err(e) => {
                let mut v: Vec<char> = Vec::new();
                push_str(&mut v, "failed to fetch ");
                push_str(&mut v, remote);
                push_str(&mut v, "/");
                push_str(&mut v, main);
                push_str(&mut v, ": ");
                push_str(&mut v, e.as_str());
                let m = string_from_chars(&v);
                assert(m@ =~= "failed to fetch "@ + remote@ + "/"@ + main@ + ": "@ + e@);
                ApproveNext::Fail(BurlError::GitError(m))
            },
        },
        ApproveStep::Rebase => match outcome {
            Ok(_) => ApproveNext::Run(ApproveStep::Validate),
            Err(e) => {
                let mut v: Vec<char> = Vec::new();
                push_str(&mut v, "rebase conflict: ");
                push_str(&mut v, e.as_str());
                let m = string_from_chars(&v);
                assert(m@ =~= "rebase conflict: "@ + e@);
                ApproveNext::Reject { reason: m, abort_rebase: true, append_summary: false }
            },
        },
        ApproveStep::CheckAncestor => match outcome {
            Ok(_) => ApproveNext::Run(ApproveStep::Validate),
            Err(_) => {
                let mut v: Vec<char> = Vec::new();
                push_str(&mut v, "branch behind ");
                push_str(&mut v, remote);
                push_str(&mut v, "/");
                push_str(&mut v, main);
                push_str(&mut v, "; rebase required");
                let m = string_from_chars(&v);
                assert(m@ =~= "branch behind "@ + remote@ + "/"@ + main@ + "; rebase required"@);
                ApproveNext::Reject { reason: m, abort_rebase: false, append_summary: false }
            },
        },
        ApproveStep::Validate => match outcome {
            Ok(_) => ApproveNext::Run(
                if strategy == MergeStrategy::FfOnly {
                    ApproveStep::SyncMain
                } else {
                    ApproveStep::CheckoutMain
                },
            ),
            Err(_) => {
                let m = if strategy == MergeStrategy::FfOnly {
                    string_from_chars(&chars_of("validation failed"))
                } else {
                    string_from_chars(&chars_of("validation failed after rebase"))
                };
                assert(m@ =~= if strategy == MergeStrategy::FfOnly {
                    "validation failed"@
                } else {
                    "validation failed after rebase"@
                });
                ApproveNext::Reject { reason: m, abort_rebase: false, append_summary: true }
            },
        },
        ApproveStep::SyncMain => ApproveNext::Run(ApproveStep::CheckoutMain),
        ApproveStep::CheckoutMain => match outcome {
            Ok(_) => ApproveNext::Run(ApproveStep::Merge),
            Err(e) => {
                let mut v: Vec<char> = Vec::new();
                push_str(&mut v, "failed to checkout ");
                push_str(&mut v, main);
                push_str(&mut v, ": ");
                push_str(&mut v, e.as_str());
                let m = string_from_chars(&v);
                assert(m@ =~= "failed to checkout "@ + main@ + ": "@ + e@);
                ApproveNext::Fail(BurlError::GitError(m))
            },
        },
        ApproveStep::Merge => match outcome {
            Ok(_) => ApproveNext::Run(
                if push_main {
                    ApproveStep::Push
                } else {
                    ApproveStep::Cleanup
                },
            ),
            Err(e) => {
                let mut v: Vec<char> = Vec::new();
                push_str(&mut v, "non-FF merge required: ");
                push_str(&mut v, e.as_str());
                let m = string_from_chars(&v);
                assert(m@ =~= "non-FF merge required: "@ + e@);
                ApproveNext::Reject { reason: m, abort_rebase: false, append_summary: false }
            },
        },
        ApproveStep::Push => match outcome {
            Ok(_) => ApproveNext::Run(ApproveStep::Cleanup),
            Err(e) => {
                let mut v: Vec<char> = Vec::new();
                push_str(&mut v, "failed to push ");
                push_str(&mut v, main);
                push_str(&mut v, " to ");
                push_str(&mut v, remote);
                push_str(&mut v, ": ");
                push_str(&mut v, e.as_str());
                push_str(&mut v, "\n\nThe merge was successful locally. You can push manually with:\ngit push ");
                push_str(&mut v, remote);
                push_str(&mut v, " ");
                push_str(&mut v, main);
                let m = string_from_chars(&v);
                assert(m@ =~= "failed to push "@ + main@ + " to "@ + remote@ + ": "@ + e@
                    + "\n\nThe merge was successful locally. You can push manually with:\ngit push "@ + remote@ + " "@
                    + main@);
                ApproveNext::Fail(BurlError::GitError(m))
            },
        },
        ApproveStep::Cleanup => ApproveNext::Run(ApproveStep::Complete),
        ApproveStep::Complete => ApproveNext::Finished,
    }
}


/// An approval is recorded only after the clean-up, which follows only a
/// successful merge (or the push after it); the merge follows only a
/// successful checkout of main, which follows only a passed validation
/// (directly, or through the update of local main under `ff_only`).
pub proof fn lemma_approval_order(
    strategy: MergeStrategy,
    step: ApproveStep,
    outcome: Result<(), Seq<char>>,
    push_main: bool,
    remote: Seq<char>,
    main: Seq<char>,
)
    ensures
        ({
            let n = next_view(strategy, step, outcome, push_main, remote, main);
            &&& n == NextView::Run(ApproveStep::Complete) ==> step == ApproveStep::Cleanup
            &&& n == NextView::Run(ApproveStep::Cleanup) ==> (step == ApproveStep::Merge || step == ApproveStep::Push)
                && outcome is Ok
            &&& n == NextView::Run(ApproveStep::Push) ==> step == ApproveStep::Merge && outcome is Ok && push_main
            &&& n == NextView::Run(ApproveStep::Merge) ==> step == ApproveStep::CheckoutMain && outcome is Ok
            &&& n == NextView::Run(ApproveStep::CheckoutMain) ==> (step == ApproveStep::Validate && outcome is Ok
                && strategy != MergeStrategy::FfOnly) || step == ApproveStep::SyncMain
            &&& n == NextView::Run(ApproveStep::SyncMain) ==> step == ApproveStep::Validate && outcome is Ok
            &&& n == NextView::Finished ==> step == ApproveStep::Complete
        }),
{
}

/// A failed validation always sends the task back with the validation
/// summary in its QA report.
pub proof fn lemma_failed_validation_rejects(
    strategy: MergeStrategy,
    e: Seq<char>,
    push_main: bool,
    remote: Seq<char>,
    main: Seq<char>,
)
    ensures
        next_view(strategy, ApproveStep::Validate, Err(e), push_main, remote, main) matches NextView::Reject(_, abort, summary)
            && !abort && summary,
{
}

/// A merge that cannot fast-forward sends the task back with git's message;
/// a failed checkout of the main branch stops with a git error that names
/// it; a failed push stops with a git error that ends with the command to
/// push by hand.
pub proof fn lemma_merge_and_push_failures(
    strategy: MergeStrategy,
    e: Seq<char>,
    push_main: bool,
    remote: Seq<char>,
    main: Seq<char>,
)
    ensures
        next_view(strategy, ApproveStep::Merge, Err(e), push_main, remote, main) == NextView::Reject(
            "non-FF merge required: "@ + e,
            false,
            false,
        ),
        next_view(strategy, ApproveStep::CheckoutMain, Err(e), push_main, remote, main) == NextView::GitFailure(
            "failed to checkout "@ + main + ": "@ + e,
        ),
        next_view(strategy, ApproveStep::Push, Err(e), push_main, remote, main) matches NextView::GitFailure(m)
            && ends_with(m, "git push "@ + remote + " "@ + main),
{
    reveal_strlit("\n\nThe merge was successful locally. You can push manually with:\ngit push ");
    reveal_strlit("git push ");
    let tail = "git push "@ + remote + " "@ + main;
    let m = "failed to push "@ + main + " to "@ + remote + ": "@ + e
        + "\n\nThe merge was successful locally. You can push manually with:\ngit push "@ + remote + " "@ + main;
    assert(m.skip(m.len() - tail.len()) =~= tail);
}

/// Whatever the strategy, a successful merge is followed by the push of
/// the main branch exactly when pushing on approval is configured, and then
/// (or directly) by the cleanup; the approval reaches its end only through
/// the cleanup.
pub proof fn lemma_merge_then_push(strategy: MergeStrategy, push_main: bool, remote: Seq<char>, main: Seq<char>)
    ensures
        next_view(strategy, ApproveStep::Merge, Ok(()), push_main, remote, main) == NextView::Run(
            if push_main {
                ApproveStep::Push
            } else {
                ApproveStep::Cleanup
            },
        ),
        next_view(strategy, ApproveStep::Push, Ok(()), push_main, remote, main) == NextView::Run(ApproveStep::Cleanup),
        next_view(strategy, ApproveStep::Cleanup, Ok(()), push_main, remote, main) == NextView::Run(ApproveStep::Complete),
{
}

} // verus!
