use burl::approval::{next_approval_action, start_approval, ApproveNext, ApproveStep, MergeStrategy};
use burl::error::BurlError;

fn run(strategy: MergeStrategy, push: bool, fail_at: Option<ApproveStep>) -> (Vec<ApproveStep>, ApproveNext) {
    let mut steps = vec![];
    let mut step = start_approval(strategy).unwrap();
    loop {
        steps.push(step);
        let outcome = if Some(step) == fail_at { Err("boom".to_string()) } else { Ok(()) };
        match next_approval_action(strategy, step, &outcome, push, "origin", "main") {
            ApproveNext::Run(next) => step = next,
            other => return (steps, other),
        }
    }
}

#[test]
fn rebase_strategy_happy_path() {
    let (steps, end) = run(MergeStrategy::RebaseFfOnly, true, None);
    assert_eq!(
        steps,
        vec![
            ApproveStep::Fetch,
            ApproveStep::Rebase,
            ApproveStep::Validate,
            ApproveStep::CheckoutMain,
            ApproveStep::Merge,
            ApproveStep::Push,
            ApproveStep::Cleanup,
            ApproveStep::Complete
        ]
    );
    assert!(matches!(end, ApproveNext::Finished));
}

#[test]
fn ff_only_strategy_happy_path_without_push() {
    let (steps, end) = run(MergeStrategy::FfOnly, false, None);
    assert_eq!(
        steps,
        vec![
            ApproveStep::Fetch,
            ApproveStep::CheckAncestor,
            ApproveStep::Validate,
            ApproveStep::SyncMain,
            ApproveStep::CheckoutMain,
            ApproveStep::Merge,
            ApproveStep::Cleanup,
            ApproveStep::Complete
        ]
    );
    assert!(matches!(end, ApproveNext::Finished));
}

#[test]
fn failures_reject_or_fail() {
    match run(MergeStrategy::RebaseFfOnly, false, Some(ApproveStep::Rebase)).1 {
        ApproveNext::Reject { reason, abort_rebase, append_summary } => {
            assert_eq!(reason, "rebase conflict: boom");
            assert!(abort_rebase && !append_summary);
        },
        _ => panic!("expected a rejection"),
    }
    match run(MergeStrategy::FfOnly, false, Some(ApproveStep::CheckAncestor)).1 {
        ApproveNext::Reject { reason, .. } => assert_eq!(reason, "branch behind origin/main; rebase required"),
        _ => panic!("expected a rejection"),
    }
    match run(MergeStrategy::RebaseFfOnly, false, Some(ApproveStep::Validate)).1 {
        ApproveNext::Reject { reason, append_summary, .. } => {
            assert_eq!(reason, "validation failed after rebase");
            assert!(append_summary);
        },
        _ => panic!("expected a rejection"),
    }
    match run(MergeStrategy::FfOnly, false, Some(ApproveStep::Validate)).1 {
        ApproveNext::Reject { reason, .. } => assert_eq!(reason, "validation failed"),
        _ => panic!("expected a rejection"),
    }
    match run(MergeStrategy::FfOnly, false, Some(ApproveStep::Merge)).1 {
        ApproveNext::Reject { reason, .. } => assert_eq!(reason, "non-FF merge required: boom"),
        _ => panic!("expected a rejection"),
    }
    match run(MergeStrategy::FfOnly, false, Some(ApproveStep::Fetch)).1 {
        ApproveNext::Fail(BurlError::GitError(m)) => assert_eq!(m, "failed to fetch origin/main: boom"),
        _ => panic!("expected a git error"),
    }
    match run(MergeStrategy::RebaseFfOnly, false, Some(ApproveStep::CheckoutMain)).1 {
        ApproveNext::Fail(BurlError::GitError(m)) => assert_eq!(m, "failed to checkout main: boom"),
        _ => panic!("expected a git error"),
    }
    match run(MergeStrategy::RebaseFfOnly, true, Some(ApproveStep::Push)).1 {
        ApproveNext::Fail(BurlError::GitError(m)) => assert_eq!(
            m,
            "failed to push main to origin: boom\n\nThe merge was successful locally. You can push manually with:\ngit push origin main"
        ),
        _ => panic!("expected a git error"),
    }
}

#[test]
fn failed_cleanup_and_sync_still_complete() {
    let (steps, end) = run(MergeStrategy::FfOnly, false, Some(ApproveStep::Cleanup));
    assert_eq!(steps.last(), Some(&ApproveStep::Complete));
    assert!(matches!(end, ApproveNext::Finished));
    let (steps, _) = run(MergeStrategy::FfOnly, false, Some(ApproveStep::SyncMain));
    assert!(steps.contains(&ApproveStep::Merge));
}

#[test]
fn manual_strategy_is_refused() {
    match start_approval(MergeStrategy::Manual) {
        Err(BurlError::UserError(m)) => assert!(m.starts_with("merge_strategy 'manual' is not implemented")),
        _ => panic!("expected a refusal"),
    }
}
