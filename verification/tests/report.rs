use burl::report::{
    bucket_counts, bucket_order, count_in_bucket, has_printable_stamps, monitor_report, recent_lines, status_report,
    task_view, ActiveLock, EventRow, TaskRow,
};
use burl::task::{TaskFile, TaskFrontmatter};

const NOW: i64 = 1_700_000_000;

fn row(id: &str, bucket: &str) -> TaskRow {
    TaskRow {
        id: id.to_string(),
        bucket: bucket.to_string(),
        title: format!("Title of {}", id),
        priority: "medium".to_string(),
        assigned_to: None,
        qa_attempts: 0,
        started_at: None,
        submitted_at: None,
        loaded: true,
    }
}

#[test]
fn status_empty_workflow_text() {
    let text = status_report(&vec![], &vec![], 30, 3, NOW);
    assert_eq!(
        text,
        "Workflow Status\n===============\n\nBuckets:\n  READY      0\n  DOING      0\n  QA         0\n  DONE       0\n  BLOCKED    0\n  --------\n  Total      0\n\nNo tasks in the workflow. Run `burl add \"title\"` to create a task.\n"
    );
}

#[test]
fn status_highlights_and_commands() {
    let mut doing = row("TASK-002", "DOING");
    doing.started_at = Some(NOW - 30 * 3600);
    let mut qa = row("TASK-003", "QA");
    qa.qa_attempts = 2;
    qa.submitted_at = Some(NOW - 3600);
    let rows = vec![row("TASK-001", "READY"), doing, qa];
    let locks = vec![ActiveLock {
        name: "TASK-002".to_string(),
        owner: "alice@host".to_string(),
        age: "2h".to_string(),
        action: "claim".to_string(),
        is_task: true,
        is_stale: true,
    }];
    let text = status_report(&rows, &locks, 30, 3, NOW);
    let expected = "Workflow Status\n===============\n\nBuckets:\n  READY      1\n  DOING      1\n  QA         1\n  DONE       0\n  BLOCKED    0\n  --------\n  Total      3\n\n\
Highlights:\n  1 task(s) currently locked:\n    - TASK-002 (by alice@host, 2h ago, action: claim) [STALE]\n  1 task(s) in QA near max attempts (3):\n    - TASK-003 (2/3 attempts)\n  1 task(s) in DOING stalled (started > 24h ago):\n    - TASK-002 (started 30h ago)\n\n\
Commands:\n  burl claim          - Claim the next available task\n  burl submit TASK-ID - Submit a task for QA\n  burl validate TASK-ID - Run validation on a QA task\n  burl approve TASK-ID  - Approve and merge a task\n";
    assert_eq!(text, expected);
}

#[test]
fn status_stale_lock_without_task_locks() {
    let rows = vec![row("TASK-001", "DONE")];
    let locks = vec![ActiveLock {
        name: "workflow".to_string(),
        owner: "bob".to_string(),
        age: "3h".to_string(),
        action: "approve".to_string(),
        is_task: false,
        is_stale: true,
    }];
    let text = status_report(&rows, &locks, 120, 3, NOW);
    assert!(text.contains("Highlights:\n  1 stale lock(s) detected (older than 120 minutes)\n\n"));
    assert!(!text.contains("Commands:"));
    assert!(!text.contains("No tasks"));
}

#[test]
fn status_skips_unloaded_rows_in_highlights() {
    let mut qa = row("TASK-004", "QA");
    qa.loaded = false;
    let text = status_report(&vec![qa], &vec![], 30, 1, NOW);
    assert!(!text.contains("Highlights:"));
}

#[test]
fn counts_per_bucket() {
    let rows = vec![row("A", "READY"), row("B", "READY"), row("C", "BLOCKED")];
    let c = bucket_counts(&rows);
    assert_eq!((c.ready, c.doing, c.qa, c.done, c.blocked), (2, 0, 0, 0, 1));
}

#[test]
fn listing_order_oldest_first() {
    let mut a = row("TASK-010", "DOING");
    a.started_at = Some(NOW - 100);
    let mut b = row("TASK-011", "DOING");
    b.started_at = Some(NOW - 5000);
    let c = row("TASK-013", "DOING");
    let d = row("TASK-012", "DOING");
    let e = row("TASK-014", "QA");
    let rows = vec![a, b, c, d, e];
    assert_eq!(bucket_order(&rows, "DOING", true), vec![1, 0, 3, 2]);
    assert_eq!(bucket_order(&rows, "QA", false), vec![4]);
}

#[test]
fn listing_order_keeps_ties_in_place() {
    let mut a = row("TASK-020", "QA");
    a.submitted_at = Some(NOW);
    let mut b = row("TASK-019", "QA");
    b.submitted_at = Some(NOW);
    assert_eq!(bucket_order(&vec![a, b], "QA", false), vec![0, 1]);
}

#[test]
fn monitor_dashboard_text() {
    let mut doing = row("TASK-002", "DOING");
    doing.started_at = Some(NOW - (26 * 3600 + 5 * 60));
    doing.assigned_to = Some("alice".to_string());
    doing.priority = "high".to_string();
    let mut qa = row("TASK-003", "QA");
    qa.submitted_at = Some(NOW - 90);
    qa.qa_attempts = 1;
    let rows = vec![doing, qa];
    let locks = vec![ActiveLock {
        name: "claim".to_string(),
        owner: "alice".to_string(),
        age: "1m".to_string(),
        action: "claim".to_string(),
        is_task: false,
        is_stale: false,
    }];
    let events = vec![EventRow {
        ts: NOW,
        action: "validate".to_string(),
        task: Some("TASK-003".to_string()),
        passed: Some(true),
    }];
    let text = monitor_report(&rows, &locks, &events, 5, 10, 3, NOW, "/repo", "/repo/.burl");
    let expected = "Burl Monitor  (Ctrl+C to exit)\nUpdated: 2023-11-14 22:13:20 UTC\n\nRepo:     /repo\nWorkflow: /repo/.burl\n\nBuckets:\n  READY      0\n  DOING      1  (1 stalled)\
\n  QA         1\n  DONE       0\n  BLOCKED    0\n  --------\n  Total      2\n\n\
Locks: 1\n  - claim (alice, 1m, action: claim)\n\n\
DOING (1):\n  ! TASK-002  [high]  started 1d2h  alice  Title of TASK-002\n\n\
QA (1):\n  - TASK-003  [attempts 1/3]  submitted 1m  -  Title of TASK-003\n\n\
Recent events (last 1):\n  - 22:13:20  validate    TASK-003   PASS\n\n";
    assert_eq!(text, expected);
}

#[test]
fn monitor_limits_rows_and_hints_when_empty() {
    let rows = vec![row("TASK-001", "QA"), row("TASK-002", "QA"), row("TASK-003", "QA")];
    let text = monitor_report(&rows, &vec![], &vec![], 0, 2, 3, NOW, "/r", "/w");
    assert!(text.contains("QA (3):\n  - TASK-001  [attempts 0/3]  submitted ?  -  Title of TASK-001\n  - TASK-002  [attempts 0/3]  submitted ?  -  Title of TASK-002\n  ... and 1 more\n\n"));
    let empty = monitor_report(&vec![], &vec![], &vec![], 3, 10, 3, NOW, "/r", "/w");
    assert!(empty.ends_with("  Total      0\n\nNo tasks in the workflow. Run `burl add \"title\"` to create a task.\n\n"));
}

#[test]
fn monitor_event_time_before_epoch() {
    let events = vec![EventRow { ts: -1, action: "add".to_string(), task: None, passed: None }];
    let text = monitor_report(&vec![], &vec![], &events, 1, 10, 3, NOW, "/r", "/w");
    assert!(text.contains("  - 23:59:59  add         -         \n"));
}

#[test]
fn recent_lines_keeps_the_last() {
    let content = "a\nb\r\nc\n";
    assert_eq!(recent_lines(content, 2), vec!["b".to_string(), "c".to_string()]);
    assert_eq!(recent_lines(content, 10).len(), 3);
    assert!(recent_lines(content, 0).is_empty());
}

#[test]
fn task_view_text_full() {
    let fm = TaskFrontmatter {
        id: "TASK-007".to_string(),
        title: "Add login".to_string(),
        priority: "high".to_string(),
        created: Some(NOW),
        assigned_to: Some("alice".to_string()),
        qa_attempts: 2,
        branch: Some("task-007-add-login".to_string()),
        base_sha: Some("abc123".to_string()),
        affects: vec!["src/login.rs".to_string()],
        must_not_touch: vec!["src/db/".to_string()],
        depends_on: vec!["TASK-001".to_string()],
        tags: vec!["auth".to_string(), "ui".to_string()],
        ..Default::default()
    };
    let task = TaskFile { frontmatter: fm, body: "\n  ## Objective\nDo it.\n\n".to_string() };
    let text = task_view("TASK-007", "DOING", &task, "/w/DOING/TASK-007-add-login.md");
    let bar = "=".repeat(80);
    let rule = "-".repeat(80);
    let expected = format!(
        "{bar}\nTASK-007 [DOING]\n{bar}\n\nTitle:      Add login\nPriority:   high\nCreated:    2023-11-14 22:13:20 UTC\nAssigned:   alice\nQA Attempts: 2\n\nGit:\n  Branch:   task-007-add-login\n  Base SHA: abc123\n\nScope:\n  Affects:\n    - src/login.rs\n  Must Not Touch:\n    - src/db/\n\nDependencies:\n  - TASK-001\n\nTags: auth, ui\n\n{rule}\n\n## Objective\nDo it.\n\n{rule}\nPath: /w/DOING/TASK-007-add-login.md\n"
    );
    assert_eq!(text, expected);
}

#[test]
fn task_view_without_body() {
    let task = TaskFile {
        frontmatter: TaskFrontmatter { title: "T".to_string(), priority: "low".to_string(), ..Default::default() },
        body: "  \n".to_string(),
    };
    let text = task_view("TASK-001", "READY", &task, "p");
    assert!(text.contains("Priority:   low\n\n----"));
    assert!(text.contains("\n\n(No body content)\n\n"));
}

#[test]
fn printable_stamps_stay_within_range() {
    let mut fm = TaskFrontmatter { created: Some(NOW), ..Default::default() };
    assert!(has_printable_stamps(&fm));
    fm.completed_at = Some(i64::MAX);
    assert!(!has_printable_stamps(&fm));
}

#[test]
fn counts_one_bucket() {
    let rows = vec![row("A", "QA"), row("B", "DONE"), row("C", "QA")];
    assert_eq!(count_in_bucket(&rows, "QA"), 2);
    assert_eq!(count_in_bucket(&rows, "READY"), 0);
}

#[test]
fn unreadable_rows_are_marked() {
    let r = TaskRow::unreadable("TASK-005", "DOING");
    assert_eq!((r.id.as_str(), r.bucket.as_str(), r.title.as_str(), r.priority.as_str()), ("TASK-005", "DOING", "(failed to load task file)", "?"));
    assert!(!r.loaded && r.started_at.is_none());
}
