use burl::error::BurlError;
use burl::init::{check_workflow_branch, check_workflow_dir, git_exclude_content, gitignore_content, GitMarker};

#[test]
fn gitignore_is_created_when_missing() {
    assert_eq!(
        gitignore_content(None),
        Some("# Machine-local files (never commit)\nlocks/\nagent-logs/\n".to_string())
    );
}

#[test]
fn gitignore_is_left_alone_when_complete() {
    assert_eq!(gitignore_content(Some("  locks/  \nagent-logs/\n")), None);
}

#[test]
fn gitignore_gains_missing_entries() {
    assert_eq!(
        gitignore_content(Some("*.tmp")),
        Some("*.tmp\n\n# Machine-local files (never commit)\nlocks/\nagent-logs/\n".to_string())
    );
    assert_eq!(
        gitignore_content(Some("# Machine-local files (never commit)\nlocks/\n")),
        Some("# Machine-local files (never commit)\nlocks/\nagent-logs/\n".to_string())
    );
    assert_eq!(
        gitignore_content(Some("")),
        Some("# Machine-local files (never commit)\nlocks/\nagent-logs/\n".to_string())
    );
}

#[test]
fn git_exclude_gains_burl_directories() {
    assert_eq!(git_exclude_content(""), Some("\n# burl workflow directories\n.burl/\n.worktrees/\n".to_string()));
    assert_eq!(
        git_exclude_content("# git ls-files --others --exclude-from=.git/info/exclude\n*~"),
        Some("# git ls-files --others --exclude-from=.git/info/exclude\n*~\n\n# burl workflow directories\n.burl/\n.worktrees/\n".to_string())
    );
    assert_eq!(
        git_exclude_content("# burl workflow directories\n.burl/\n"),
        Some("# burl workflow directories\n.burl/\n.worktrees/\n".to_string())
    );
    assert_eq!(git_exclude_content(".worktrees/\n.burl/\n"), None);
}

#[test]
fn workflow_dir_checks() {
    assert_eq!(check_workflow_dir("/r/.burl", false, &GitMarker::Absent).unwrap(), false);
    assert_eq!(
        check_workflow_dir("/r/.burl", true, &GitMarker::File("gitdir: /r/.git/worktrees/burl\n".to_string())).unwrap(),
        true
    );
    match check_workflow_dir("/r/.burl", true, &GitMarker::Absent) {
        Err(BurlError::UserError(m)) => assert_eq!(
            m,
            "directory '/r/.burl' exists but is not a git worktree.\n\nTo fix this, either:\n1. Delete or rename '/r/.burl' and run `burl init` again\n2. Or manually set up the worktree with:\ngit worktree add /r/.burl burl"
        ),
        _ => panic!("expected a refusal"),
    }
    match check_workflow_dir("/r/.burl", true, &GitMarker::File("nonsense".to_string())) {
        Err(BurlError::UserError(m)) => assert!(m.contains("has an invalid .git file")),
        _ => panic!("expected a refusal"),
    }
    match check_workflow_dir("/r/.burl", true, &GitMarker::Directory) {
        Err(BurlError::UserError(m)) => assert!(m.contains("contains a full git repository, not a worktree")),
        _ => panic!("expected a refusal"),
    }
}

#[test]
fn workflow_branch_check() {
    assert!(check_workflow_branch("/r/.burl", "burl\n").is_ok());
    match check_workflow_branch("/r/.burl", "main\n") {
        Err(BurlError::UserError(m)) => assert_eq!(
            m,
            "workflow worktree is checked out to 'main', expected 'burl'.\n\nTo fix this, either:\n1. Checkout the correct branch: git -C /r/.burl checkout burl\n2. Or delete '/r/.burl' and run `burl init` again."
        ),
        _ => panic!("expected a refusal"),
    }
}
