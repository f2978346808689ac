use burl::cli::WatchArgs;
use burl::error::BurlError;
use burl::refs::{
    check_approve_branch, check_attempts_room, check_reclaim, check_submit_branch, check_workflow_clean,
    check_worktree_present, recorded_base_sha, recorded_refs, recorded_worktree_path, validation_failed,
};
use burl::stamp::{format_utc, MAX_STAMP, MIN_STAMP};
use burl::task::{TaskFile, TaskFrontmatter};
use burl::validation::{format_validation_summary, ValidationStepResult};
use burl::watch::{claims_wanted, dispatch_targets, qa_targets};
use burl::workflow::apply_reject;

fn fm(worktree: Option<&str>, branch: Option<&str>, base: Option<&str>) -> TaskFrontmatter {
    TaskFrontmatter {
        id: "TASK-003".to_string(),
        title: "Refs".to_string(),
        priority: "medium".to_string(),
        worktree: worktree.map(|s| s.to_string()),
        branch: branch.map(|s| s.to_string()),
        base_sha: base.map(|s| s.to_string()),
        ..Default::default()
    }
}

fn user_message(r: Result<(), BurlError>) -> String {
    match r {
        Err(BurlError::UserError(m)) => m,
        other => panic!("expected a user error, got {:?}", other),
    }
}

#[test]
fn refs_are_read_from_the_frontmatter() {
    let full = fm(Some(".worktrees/task-003"), Some("task-003-refs"), Some("abc"));
    assert_eq!(
        recorded_refs("TASK-003", &full).unwrap(),
        (".worktrees/task-003".to_string(), "task-003-refs".to_string())
    );
    assert_eq!(recorded_base_sha("TASK-003", &full).unwrap(), "abc");
    assert_eq!(recorded_worktree_path("TASK-003", &full).unwrap(), ".worktrees/task-003");
    match recorded_refs("TASK-003", &fm(None, Some("b"), None)) {
        Err(BurlError::UserError(m)) => assert_eq!(
            m,
            "task 'TASK-003' has no worktree recorded.\n\nClaim it first with `burl claim TASK-003`."
        ),
        other => panic!("unexpected: {:?}", other),
    }
    match recorded_refs("TASK-003", &fm(Some("w"), None, None)) {
        Err(BurlError::UserError(m)) => assert!(m.starts_with("task 'TASK-003' has no branch recorded.")),
        other => panic!("unexpected: {:?}", other),
    }
    match recorded_base_sha("TASK-003", &fm(Some("w"), Some("b"), None)) {
        Err(BurlError::UserError(m)) => assert_eq!(
            m,
            "task 'TASK-003' has no recorded base_sha.\n\nThis task may be in an invalid state. Run `burl doctor` to diagnose."
        ),
        other => panic!("unexpected: {:?}", other),
    }
}

#[test]
fn worktree_and_branch_checks() {
    assert!(check_worktree_present("/r/.worktrees/t", true).is_ok());
    assert_eq!(
        user_message(check_worktree_present("/r/.worktrees/t", false)),
        "task worktree does not exist at '/r/.worktrees/t'.\n\nRun `burl doctor` to diagnose and repair this inconsistency."
    );
    assert!(check_submit_branch("b", "b").is_ok());
    assert_eq!(
        user_message(check_submit_branch("main", "b")),
        "task worktree is on branch 'main', but task expects branch 'b'.\n\nRun `burl doctor` to diagnose or re-claim the task."
    );
    assert_eq!(
        user_message(check_approve_branch("main", "b", "/w")),
        "task worktree is on branch 'main', but task expects branch 'b'.\n\nRemediation: checkout the correct branch with:\ncd /w && git checkout b"
    );
    assert!(check_attempts_room(3).is_ok());
    assert_eq!(user_message(check_attempts_room(u32::MAX)), "qa_attempts cannot grow any further");
    match validation_failed("TASK-003") {
        e @ BurlError::ValidationError(_) => {
            assert_eq!(e.message(), "validation failed for task TASK-003");
            assert_eq!(e.exit_code(), 2);
        }
        other => panic!("unexpected: {:?}", other),
    }
}

#[test]
fn reclaim_checks() {
    assert!(check_reclaim("b", "/w", true, Some("b"), true).is_ok());
    assert!(check_reclaim("b", "/w", true, None, true).is_ok());
    assert!(check_reclaim("b", "/w", false, None, false).is_ok());
    assert_eq!(
        user_message(check_reclaim("b", "/w", true, Some("main"), true)),
        "task has recorded worktree at '/w' but it's on branch 'main', not 'b'.\n\nRun `burl doctor` to diagnose and repair this inconsistency."
    );
    assert_eq!(
        user_message(check_reclaim("b", "/w", false, None, true)),
        "task has recorded branch 'b' but worktree at '/w' is missing.\n\nRun `burl doctor` to diagnose and repair this inconsistency,\nor manually recreate the worktree:\n  git worktree add /w b"
    );
}

#[test]
fn workflow_must_be_clean() {
    assert!(check_workflow_clean("").is_ok());
    assert!(check_workflow_clean("\n").is_ok());
    assert!(user_message(check_workflow_clean(" M .workflow/READY/TASK-001-a.md\n"))
        .starts_with("workflow worktree has uncommitted changes."));
}

#[test]
fn stamps_cover_the_whole_chrono_range() {
    assert_eq!(format_utc(0), "1970-01-01 00:00:00 UTC");
    assert_eq!(format_utc(-1), "1969-12-31 23:59:59 UTC");
    assert_eq!(format_utc(253402300800), "+10000-01-01 00:00:00 UTC");
    assert_eq!(format_utc(MIN_STAMP), "-262143-01-01 00:00:00 UTC");
    assert_eq!(format_utc(MAX_STAMP), "+262142-12-31 23:59:59 UTC");
    let summary = format_validation_summary(&[ValidationStepResult::pass("scope")], true, -86400);
    assert!(summary.contains("1969-12-31 00:00:00 UTC"));
}

#[test]
fn reject_after_year_ten_thousand() {
    let mut task = TaskFile { frontmatter: fm(Some("w"), Some("b"), Some("abc")), body: "Body\n".to_string() };
    task.frontmatter.qa_attempts = 1;
    task.frontmatter.submitted_at = Some(5);
    let out = apply_reject(&mut task, "needs work", "tester", 300000000000, 3, true);
    assert_eq!(out.destination, "READY");
    assert_eq!(task.frontmatter.qa_attempts, 2);
    assert_eq!(task.frontmatter.priority, "high");
    assert!(task.frontmatter.submitted_at.is_none());
    assert!(task.body.contains("needs work"));
    assert!(task.body.contains("+11476"));
}

fn watch_args(claim: bool, qa: bool, approve: bool, dispatch: bool) -> WatchArgs {
    WatchArgs { interval_ms: 2000, claim, qa, approve, dispatch, once: true }
}

#[test]
fn watch_claims_up_to_the_limit() {
    assert_eq!(claims_wanted(&watch_args(true, true, false, false), 0, 3), 3);
    assert_eq!(claims_wanted(&watch_args(true, true, false, false), 3, 3), 0);
    assert_eq!(claims_wanted(&watch_args(true, true, false, false), 5, 3), 0);
    assert_eq!(claims_wanted(&watch_args(false, true, false, false), 0, 3), 0);
    let claimed = vec!["TASK-001".to_string()];
    assert_eq!(dispatch_targets(&watch_args(true, true, false, true), &claimed), claimed);
    assert!(dispatch_targets(&watch_args(true, true, false, false), &claimed).is_empty());
}

#[test]
fn watch_processes_each_commit_once() {
    let pair = |a: &str, b: &str| (a.to_string(), b.to_string());
    let qa = vec![pair("TASK-001", "aaa"), pair("TASK-002", "bbb")];
    let seen = vec![pair("TASK-001", "aaa"), pair("TASK-002", "old")];
    assert_eq!(qa_targets(&watch_args(true, true, false, false), &qa, &seen), vec![pair("TASK-002", "bbb")]);
    assert!(qa_targets(&watch_args(true, false, false, false), &qa, &Vec::new()).is_empty());
    assert_eq!(qa_targets(&watch_args(true, false, true, false), &qa, &Vec::new()), qa);
}

#[test]
fn child_paths_lie_under_their_parent() {
    assert!(burl::clean::is_path_under("/repo/.worktrees/task-001", "/repo/.worktrees"));
    assert!(burl::clean::is_path_under("/repo/.worktrees", "/repo/.worktrees"));
    assert!(!burl::clean::is_path_under("/repo/.worktrees", "/repo/.worktrees/task-001"));
    assert!(!burl::clean::is_path_under("/repo/.worktrees-old/x", "/repo/.worktrees"));
    assert!(burl::clean::is_path_under("rel/dir/x", "rel/dir"));
}
