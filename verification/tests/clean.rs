use burl::clean::{
    build_cleanup_plan, check_removal, is_path_under, CleanEntry, CleanTask, CleanupCandidate,
    CleanupResult, RemovalKind,
};
use burl::cli::CleanArgs;
use burl::paths::{make_relative, normalize_worktree_path, path_contains_traversal, path_starts_with};

#[test]
fn clean_test_path_contains_traversal() {
    assert!(path_contains_traversal("../foo"));
    assert!(path_contains_traversal("foo/../bar"));
    assert!(path_contains_traversal("foo/bar/.."));
    assert!(!path_contains_traversal("foo/bar"));
    assert!(!path_contains_traversal("/absolute/path"));
    assert!(!path_contains_traversal("./relative"));
}

#[test]
fn clean_test_make_relative() {
    let repo_root = "/home/user/repo";
    let path = "/home/user/repo/.worktrees/task-001";

    let result = make_relative(path, repo_root);
    assert_eq!(result, ".worktrees/task-001");

    // Path not under repo_root
    let other_path = "/other/path";
    let result = make_relative(other_path, repo_root);
    assert_eq!(result, "/other/path");
}

#[test]
fn clean_test_is_path_under() {
    let parent = "/home/user/repo/.worktrees";
    let child = "/home/user/repo/.worktrees/task-001";
    let outside = "/home/user/other";

    assert!(is_path_under(child, parent));
    assert!(!is_path_under(outside, parent));
}

#[test]
fn clean_test_cleanup_result_default() {
    let result = CleanupResult::default();
    assert_eq!(result.removed_count, 0);
    assert_eq!(result.skipped_count, 0);
    assert!(result.skipped.is_empty());
}

#[test]
fn clean_test_cleanup_candidate_fields() {
    let candidate = CleanupCandidate {
        path: "/path/to/worktree".to_string(),
        task_id: Some("TASK-001".to_string()),
        branch: Some("task-001-feature".to_string()),
    };

    assert_eq!(candidate.path, "/path/to/worktree");
    assert_eq!(candidate.task_id, Some("TASK-001".to_string()));
    assert_eq!(candidate.branch, Some("task-001-feature".to_string()));
}

#[test]
fn clean_test_normalize_worktree_path_relative() {
    let repo_root = "/home/user/repo";
    let result = normalize_worktree_path(repo_root, ".worktrees/task-001");
    assert_eq!(result, "/home/user/repo/.worktrees/task-001");
}

#[test]
fn clean_test_normalize_worktree_path_absolute() {
    let repo_root = "/home/user/repo";
    let result = normalize_worktree_path(repo_root, "/absolute/path/worktree");
    assert_eq!(result, "/absolute/path/worktree");
}

#[test]
fn display_test_make_relative() {
    let repo_root = "/home/user/repo";
    let path = "/home/user/repo/.worktrees/task-001";

    let result = make_relative(path, repo_root);
    assert_eq!(result, ".worktrees/task-001");

    // Path not under repo_root
    let other_path = "/other/path";
    let result = make_relative(other_path, repo_root);
    assert_eq!(result, "/other/path");
}

#[test]
fn planning_test_normalize_worktree_path_relative() {
    let repo_root = "/home/user/repo";
    let result = normalize_worktree_path(repo_root, ".worktrees/task-001");
    assert_eq!(result, "/home/user/repo/.worktrees/task-001");
}

#[test]
fn planning_test_normalize_worktree_path_absolute() {
    let repo_root = "/home/user/repo";
    let result = normalize_worktree_path(repo_root, "/absolute/path/worktree");
    assert_eq!(result, "/absolute/path/worktree");
}

#[test]
fn tests_test_path_contains_traversal() {
    assert!(path_contains_traversal("../foo"));
    assert!(path_contains_traversal("foo/../bar"));
    assert!(path_contains_traversal("foo/bar/.."));
    assert!(!path_contains_traversal("foo/bar"));
    assert!(!path_contains_traversal("/absolute/path"));
    assert!(!path_contains_traversal("./relative"));
}

#[test]
fn tests_test_is_path_under() {
    let parent = "/home/user/repo/.worktrees";
    let child = "/home/user/repo/.worktrees/task-001";
    let outside = "/home/user/other";

    assert!(is_path_under(child, parent));
    assert!(!is_path_under(outside, parent));
}

#[test]
fn tests_test_cleanup_result_default() {
    let result = CleanupResult::default();
    assert_eq!(result.removed_count, 0);
    assert_eq!(result.skipped_count, 0);
    assert!(result.skipped.is_empty());
}

#[test]
fn tests_test_cleanup_candidate_fields() {
    let candidate = CleanupCandidate {
        path: "/path/to/worktree".to_string(),
        task_id: Some("TASK-001".to_string()),
        branch: Some("task-001-feature".to_string()),
    };

    assert_eq!(candidate.path, "/path/to/worktree");
    assert_eq!(candidate.task_id, Some("TASK-001".to_string()));
    assert_eq!(candidate.branch, Some("task-001-feature".to_string()));
}

fn task(id: &str, bucket: &str, wt: Option<&str>, exists: bool) -> CleanTask {
    CleanTask {
        id: id.to_string(),
        bucket: bucket.to_string(),
        worktree: wt.map(|s| s.to_string()),
        worktree_canonical: wt.unwrap_or("").to_string(),
        worktree_exists: exists,
        branch: Some(format!("{}-branch", id.to_lowercase())),
    }
}

fn entry(path: &str, is_dir: bool, git: bool) -> CleanEntry {
    CleanEntry {
        path: path.to_string(),
        canonical: path.to_string(),
        is_dir,
        is_git_worktree: git,
        branch: if git { Some("stray".to_string()) } else { None },
    }
}

#[test]
fn cleanup_plan_selects_candidates() {
    let tasks = vec![
        task("TASK-001", "DONE", Some("/repo/.worktrees/task-001"), true),
        task("TASK-002", "DOING", Some("/repo/.worktrees/task-002"), true),
        task("TASK-003", "DONE", Some("/repo/.worktrees/task-003"), false),
    ];
    let entries = vec![
        entry("/repo/.worktrees/task-001", true, true),
        entry("/repo/.worktrees/task-002/", true, true),
        entry("/repo/.worktrees/orphan", true, true),
        entry("/repo/.worktrees/junk", true, false),
        entry("/repo/.worktrees/file.txt", false, false),
    ];
    let both = CleanArgs { completed: false, orphans: false, yes: false };
    let plan = build_cleanup_plan(&both, &tasks, true, &entries);
    assert_eq!(plan.completed_worktrees.len(), 1);
    assert_eq!(plan.completed_worktrees[0].task_id, Some("TASK-001".to_string()));
    assert_eq!(plan.orphan_worktrees.len(), 1);
    assert_eq!(plan.orphan_worktrees[0].path, "/repo/.worktrees/orphan");
    assert_eq!(plan.orphan_directories, vec!["/repo/.worktrees/junk".to_string()]);

    let only_orphans = CleanArgs { completed: false, orphans: true, yes: false };
    let plan = build_cleanup_plan(&only_orphans, &tasks, true, &entries);
    assert!(plan.completed_worktrees.is_empty());
    assert_eq!(plan.orphan_directories.len(), 1);

    let only_completed = CleanArgs { completed: true, orphans: false, yes: false };
    let plan = build_cleanup_plan(&only_completed, &tasks, true, &entries);
    assert_eq!(plan.completed_worktrees.len(), 1);
    assert!(plan.orphan_worktrees.is_empty());

    let plan = build_cleanup_plan(&both, &tasks, false, &entries);
    assert!(plan.orphan_worktrees.is_empty() && plan.orphan_directories.is_empty());
}

#[test]
fn removal_safety_checks() {
    let wt = "/repo/.worktrees";
    assert!(check_removal(RemovalKind::Worktree, "/repo/.worktrees/a", "/repo/.worktrees/a", wt, "/repo", false).is_ok());
    let e = check_removal(RemovalKind::Worktree, "/repo/src", "/repo/src", wt, "/repo", false).unwrap_err();
    assert_eq!(e.message(), "refusing to remove worktree outside .worktrees/: /repo/src");
    let e = check_removal(RemovalKind::Directory, "/repo/.worktrees/a/../b", "/repo/.worktrees/b", wt, "/repo", false)
        .unwrap_err();
    assert_eq!(e.message(), "refusing to remove path with traversal: /repo/.worktrees/a/../b");
    let e = check_removal(RemovalKind::Worktree, "/repo/.worktrees/a", "/repo/.worktrees/a", wt, "/repo", true).unwrap_err();
    assert!(e.message().starts_with("refusing to remove worktree with uncommitted changes: /repo/.worktrees/a"));
    assert!(check_removal(RemovalKind::Directory, "/repo/.worktrees/a", "/repo/.worktrees/a", wt, "/repo", true).is_ok());
}

#[test]
fn path_components_prefix() {
    assert!(path_starts_with("/a/b/c", "/a/b"));
    assert!(path_starts_with("/a/b/", "/a//b"));
    assert!(!path_starts_with("/a/bc", "/a/b"));
    assert!(!path_starts_with("a/b", "/a"));
    assert_eq!(make_relative("/repo", "/repo"), "");
    assert_eq!(make_relative("/repo/./x//y/", "/repo"), "x/y");
}

#[test]
fn cleanup_result_counts() {
    let mut r = CleanupResult::default();
    r.record_removed();
    r.record_skipped("/p".to_string(), "busy".to_string());
    assert_eq!((r.removed_count, r.skipped_count), (1, 1));
    assert_eq!(r.skipped, vec![("/p".to_string(), "busy".to_string())]);
}
