use burl::error::BurlError;
use burl::scope::{
    check_scope_conflicts, globs_overlap_heuristic, path_matches_glob_heuristic, scopes_overlap,
    ConflictPolicy, DoingTask,
};
use burl::selection::{
    check_dependencies_satisfied, claim_target, priority_rank, select_next_task_id, validate_priority, ReadyTask,
};
use burl::task::{TaskIndex, TaskInfo};
use burl::workflow::actor_string;

#[test]
fn claim_test_scopes_overlap_identical_affects() {
    let affects_a = vec!["src/lib.rs".to_string()];
    let globs_a: Vec<String> = vec![];
    let affects_b = vec!["src/lib.rs".to_string()];
    let globs_b: Vec<String> = vec![];

    assert!(scopes_overlap(&affects_a, &globs_a, &affects_b, &globs_b));
}

#[test]
fn claim_test_scopes_overlap_identical_globs() {
    let affects_a: Vec<String> = vec![];
    let globs_a = vec!["src/**".to_string()];
    let affects_b: Vec<String> = vec![];
    let globs_b = vec!["src/**".to_string()];

    assert!(scopes_overlap(&affects_a, &globs_a, &affects_b, &globs_b));
}

#[test]
fn claim_test_scopes_overlap_path_matches_glob() {
    let affects_a = vec!["src/lib.rs".to_string()];
    let globs_a: Vec<String> = vec![];
    let affects_b: Vec<String> = vec![];
    let globs_b = vec!["src/**".to_string()];

    assert!(scopes_overlap(&affects_a, &globs_a, &affects_b, &globs_b));
}

#[test]
fn claim_test_scopes_no_overlap() {
    let affects_a = vec!["src/lib.rs".to_string()];
    let globs_a = vec!["src/**".to_string()];
    let affects_b = vec!["tests/test.rs".to_string()];
    let globs_b = vec!["tests/**".to_string()];

    assert!(!scopes_overlap(&affects_a, &globs_a, &affects_b, &globs_b));
}

#[test]
fn claim_test_scopes_overlap_nested_globs() {
    let affects_a: Vec<String> = vec![];
    let globs_a = vec!["src/**".to_string()];
    let affects_b: Vec<String> = vec![];
    let globs_b = vec!["src/foo/**".to_string()];

    assert!(scopes_overlap(&affects_a, &globs_a, &affects_b, &globs_b));
}

#[test]
fn claim_test_path_matches_glob_heuristic() {
    assert!(path_matches_glob_heuristic("src/lib.rs", "src/**"));
    assert!(path_matches_glob_heuristic("src/foo/bar.rs", "src/**"));
    assert!(path_matches_glob_heuristic("src/lib.rs", "src/*"));
    assert!(!path_matches_glob_heuristic("tests/test.rs", "src/**"));
}

#[test]
fn claim_test_globs_overlap_heuristic() {
    assert!(globs_overlap_heuristic("src/**", "src/foo/**"));
    assert!(globs_overlap_heuristic("src/foo/**", "src/**"));
    assert!(!globs_overlap_heuristic("src/**", "tests/**"));
}

#[test]
fn scope_test_scopes_overlap_identical_affects() {
    let affects_a = vec!["src/lib.rs".to_string()];
    let globs_a: Vec<String> = vec![];
    let affects_b = vec!["src/lib.rs".to_string()];
    let globs_b: Vec<String> = vec![];

    assert!(scopes_overlap(&affects_a, &globs_a, &affects_b, &globs_b));
}

#[test]
fn scope_test_scopes_overlap_identical_globs() {
    let affects_a: Vec<String> = vec![];
    let globs_a = vec!["src/**".to_string()];
    let affects_b: Vec<String> = vec![];
    let globs_b = vec!["src/**".to_string()];

    assert!(scopes_overlap(&affects_a, &globs_a, &affects_b, &globs_b));
}

#[test]
fn scope_test_scopes_overlap_path_matches_glob() {
    let affects_a = vec!["src/lib.rs".to_string()];
    let globs_a: Vec<String> = vec![];
    let affects_b: Vec<String> = vec![];
    let globs_b = vec!["src/**".to_string()];

    assert!(scopes_overlap(&affects_a, &globs_a, &affects_b, &globs_b));
}

#[test]
fn scope_test_scopes_no_overlap() {
    let affects_a = vec!["src/lib.rs".to_string()];
    let globs_a = vec!["src/**".to_string()];
    let affects_b = vec!["tests/test.rs".to_string()];
    let globs_b = vec!["tests/**".to_string()];

    assert!(!scopes_overlap(&affects_a, &globs_a, &affects_b, &globs_b));
}

#[test]
fn scope_test_scopes_overlap_nested_globs() {
    let affects_a: Vec<String> = vec![];
    let globs_a = vec!["src/**".to_string()];
    let affects_b: Vec<String> = vec![];
    let globs_b = vec!["src/foo/**".to_string()];

    assert!(scopes_overlap(&affects_a, &globs_a, &affects_b, &globs_b));
}

#[test]
fn scope_test_path_matches_glob_heuristic() {
    assert!(path_matches_glob_heuristic("src/lib.rs", "src/**"));
    assert!(path_matches_glob_heuristic("src/foo/bar.rs", "src/**"));
    assert!(path_matches_glob_heuristic("src/lib.rs", "src/*"));
    assert!(!path_matches_glob_heuristic("tests/test.rs", "src/**"));
}

#[test]
fn scope_test_globs_overlap_heuristic() {
    assert!(globs_overlap_heuristic("src/**", "src/foo/**"));
    assert!(globs_overlap_heuristic("src/foo/**", "src/**"));
    assert!(!globs_overlap_heuristic("src/**", "tests/**"));
}

#[test]
fn claim_test_priority_rank() {
    assert_eq!(priority_rank("high"), 0);
    assert_eq!(priority_rank("HIGH"), 0);
    assert_eq!(priority_rank("medium"), 1);
    assert_eq!(priority_rank("low"), 2);
    assert_eq!(priority_rank("other"), 3);
    assert_eq!(priority_rank(""), 3);
}

#[test]
fn selection_test_priority_rank() {
    assert_eq!(priority_rank("high"), 0);
    assert_eq!(priority_rank("HIGH"), 0);
    assert_eq!(priority_rank("medium"), 1);
    assert_eq!(priority_rank("low"), 2);
    assert_eq!(priority_rank("other"), 3);
    assert_eq!(priority_rank(""), 3);
}

#[test]
fn test_validate_priority_valid() {
    assert_eq!(validate_priority("high").unwrap(), "high");
    assert_eq!(validate_priority("HIGH").unwrap(), "high");
    assert_eq!(validate_priority("Medium").unwrap(), "medium");
    assert_eq!(validate_priority("LOW").unwrap(), "low");
}

#[test]
fn test_validate_priority_invalid() {
    assert!(validate_priority("urgent").is_err());
    assert!(validate_priority("critical").is_err());
    assert!(validate_priority("").is_err());
}

#[test]
fn invalid_priority_message() {
    match validate_priority("urgent") {
        Err(BurlError::UserError(m)) => {
            assert_eq!(m, "invalid priority 'urgent': must be 'high', 'medium', or 'low'")
        }
        other => panic!("unexpected {:?}", other),
    }
}

fn info(id: &str, number: u32, bucket: &str) -> TaskInfo {
    TaskInfo {
        id: id.to_string(),
        number,
        bucket: bucket.to_string(),
        path: format!("/repo/.burl/.workflow/{}/{}.md", bucket, id),
    }
}

fn ready(id: &str, number: u32, priority: &str, deps: &[&str]) -> ReadyTask {
    ReadyTask {
        id: id.to_string(),
        number,
        priority: priority.to_string(),
        depends_on: deps.iter().map(|d| d.to_string()).collect(),
    }
}

#[test]
fn selection_prefers_priority_then_number() {
    let index = TaskIndex {
        tasks: vec![info("TASK-001", 1, "READY"), info("TASK-002", 2, "READY"), info("TASK-003", 3, "READY")],
    };
    let tasks = vec![
        ready("TASK-001", 1, "low", &[]),
        ready("TASK-003", 3, "high", &[]),
        ready("TASK-002", 2, "high", &[]),
    ];
    assert_eq!(select_next_task_id(&tasks, &index), Some("TASK-002".to_string()));
}

#[test]
fn selection_skips_unmet_dependencies() {
    let index = TaskIndex {
        tasks: vec![info("TASK-001", 1, "READY"), info("TASK-002", 2, "READY"), info("TASK-003", 3, "DONE")],
    };
    let tasks = vec![
        ready("TASK-001", 1, "high", &["TASK-002"]),
        ready("TASK-002", 2, "low", &["TASK-003"]),
    ];
    assert_eq!(select_next_task_id(&tasks, &index), Some("TASK-002".to_string()));
    assert_eq!(select_next_task_id(&Vec::new(), &index), None);
}

#[test]
fn dependencies_must_be_done() {
    let index = TaskIndex {
        tasks: vec![info("TASK-001", 1, "DONE"), info("TASK-002", 2, "QA")],
    };
    assert!(check_dependencies_satisfied(&vec!["TASK-001".to_string()], &index).is_ok());
    let err = check_dependencies_satisfied(
        &vec!["TASK-002".to_string(), "TASK-009".to_string()],
        &index,
    )
    .unwrap_err();
    let msg = err.message();
    assert!(msg.contains("TASK-002 (currently in QA)"));
    assert!(msg.contains("TASK-009 (not found)"));
    assert_eq!(err.exit_code(), 1);
}

fn doing(id: &str, title: &str, affects: &[&str], globs: &[&str]) -> DoingTask {
    DoingTask {
        id: id.to_string(),
        title: title.to_string(),
        affects: affects.iter().map(|s| s.to_string()).collect(),
        affects_globs: globs.iter().map(|s| s.to_string()).collect(),
    }
}

#[test]
fn scope_conflict_policies() {
    let affects = vec!["src/lib.rs".to_string()];
    let globs: Vec<String> = vec![];
    let tasks = vec![
        doing("TASK-002", "Other", &[], &["src/**"]),
        doing("TASK-003", "Docs", &["README.md"], &[]),
    ];
    let expected = "scope conflict detected with tasks currently in DOING:\n  - TASK-002 (Other)\n\nThe declaring scopes overlap, which may cause merge conflicts.";
    assert_eq!(
        check_scope_conflicts(&affects, &globs, &tasks, ConflictPolicy::Warn).unwrap(),
        Some(expected.to_string())
    );
    assert_eq!(check_scope_conflicts(&affects, &globs, &tasks, ConflictPolicy::Ignore).unwrap(), None);
    match check_scope_conflicts(&affects, &globs, &tasks, ConflictPolicy::Fail) {
        Err(BurlError::UserError(m)) => {
            assert!(m.starts_with("cannot claim task: scope conflict detected"));
            assert!(m.ends_with("set `conflict_policy: warn` or `conflict_policy: ignore` in config.yaml."));
        }
        other => panic!("unexpected {:?}", other),
    }
    let other = vec!["docs/a.md".to_string()];
    assert_eq!(check_scope_conflicts(&other, &globs, &tasks, ConflictPolicy::Fail).unwrap(), None);
}

#[test]
fn scope_overlap_is_symmetric_on_examples() {
    let a = vec!["src/lib.rs".to_string()];
    let empty: Vec<String> = vec![];
    let g = vec!["src/**".to_string()];
    assert_eq!(scopes_overlap(&a, &empty, &empty, &g), scopes_overlap(&empty, &g, &a, &empty));
    assert!(scopes_overlap(&a, &g, &a, &g));
}

#[test]
fn claim_target_named_or_next() {
    let ready = vec![
        ReadyTask { id: "TASK-002".to_string(), number: 2, priority: "low".to_string(), depends_on: vec![] },
        ReadyTask { id: "TASK-003".to_string(), number: 3, priority: "high".to_string(), depends_on: vec![] },
    ];
    let index = TaskIndex { tasks: vec![] };
    assert_eq!(claim_target(Some("task-002"), &ready, &index).unwrap(), "TASK-002");
    assert_eq!(claim_target(None, &ready, &index).unwrap(), "TASK-003");
    match claim_target(None, &vec![], &index) {
        Err(BurlError::UserError(m)) => assert!(m.starts_with("no claimable tasks in READY.")),
        _ => panic!("expected an error"),
    }
    match claim_target(Some("../x"), &ready, &index) {
        Err(BurlError::UserError(m)) => assert!(m.contains("path traversal")),
        _ => panic!("expected an error"),
    }
}

#[test]
fn reject_test_get_actor_string() {
    let actor = actor_string(Some("alice"), Some("workstation"));
    assert!(actor.contains('@'));
    assert!(!actor.is_empty());
    assert_eq!(actor, "alice@workstation");
}

#[test]
fn tests_test_get_actor_string() {
    let actor = actor_string(None, None);
    assert!(actor.contains('@'));
    assert!(!actor.is_empty());
    assert_eq!(actor, "unknown@unknown");
}
