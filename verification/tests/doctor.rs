use burl::cli::DoctorArgs;
use burl::doctor::{
    check_bucket_metadata_mismatches, check_doctor_args, check_missing_directories, check_orphan_locks,
    check_orphan_worktrees, check_stale_locks, check_tasks_missing_base_sha, check_tasks_missing_branch,
    check_tasks_missing_worktree, doctor_outcome, get_bucket_from_path, plan_bucket_repair, DoctorReport,
    Issue, IssueSeverity, LockSummary, TaskRecord, WorktreeEntry, plan_repairs, RepairKind, lock_id_from_path,
    note_created_dir, note_cleared_lock, note_moved_task, repair_commit_message,
};
use burl::task::{TaskFrontmatter, TaskIndex, TaskInfo};

#[test]
fn doctor_test_issue_creation() {
    let issue = Issue::new(IssueSeverity::Error, "test_category", "test description")
        .with_path("/some/path")
        .with_remediation("run some command")
        .repairable();

    assert_eq!(issue.severity, IssueSeverity::Error);
    assert_eq!(issue.category, "test_category");
    assert_eq!(issue.description, "test description");
    assert_eq!(issue.path, Some("/some/path".to_string()));
    assert_eq!(issue.remediation, Some("run some command".to_string()));
    assert!(issue.repairable);
}

#[test]
fn doctor_test_issue_severity_display() {
    assert_eq!(IssueSeverity::Warning.to_string(), "WARNING");
    assert_eq!(IssueSeverity::Error.to_string(), "ERROR");
}

#[test]
fn doctor_test_doctor_report_has_issues() {
    let mut report = DoctorReport::new();
    assert!(!report.has_issues());

    report
        .issues
        .push(Issue::new(IssueSeverity::Warning, "test", "test issue"));
    assert!(report.has_issues());
}

#[test]
fn doctor_test_doctor_report_has_errors() {
    let mut report = DoctorReport::new();
    assert!(!report.has_errors());

    report
        .issues
        .push(Issue::new(IssueSeverity::Warning, "test", "warning issue"));
    assert!(!report.has_errors());

    report
        .issues
        .push(Issue::new(IssueSeverity::Error, "test", "error issue"));
    assert!(report.has_errors());
}

#[test]
fn doctor_test_get_bucket_from_path() {
    let path_ready = "/some/path/.workflow/READY/TASK-001.md";
    assert_eq!(get_bucket_from_path(path_ready), Some("READY"));

    let path_doing = "/some/path/.workflow/DOING/TASK-001.md";
    assert_eq!(get_bucket_from_path(path_doing), Some("DOING"));

    let path_qa = "/some/path/.workflow/QA/TASK-001.md";
    assert_eq!(get_bucket_from_path(path_qa), Some("QA"));

    let path_done = "/some/path/.workflow/DONE/TASK-001.md";
    assert_eq!(get_bucket_from_path(path_done), Some("DONE"));

    let path_blocked = "/some/path/.workflow/BLOCKED/TASK-001.md";
    assert_eq!(get_bucket_from_path(path_blocked), Some("BLOCKED"));

    let path_unknown = "/some/path/OTHER/TASK-001.md";
    assert_eq!(get_bucket_from_path(path_unknown), None);
}

#[test]
fn tests_test_issue_creation() {
    let issue = Issue::new(IssueSeverity::Error, "test_category", "test description")
        .with_path("/some/path")
        .with_remediation("run some command")
        .repairable();

    assert_eq!(issue.severity, IssueSeverity::Error);
    assert_eq!(issue.category, "test_category");
    assert_eq!(issue.description, "test description");
    assert_eq!(issue.path, Some("/some/path".to_string()));
    assert_eq!(issue.remediation, Some("run some command".to_string()));
    assert!(issue.repairable);
}

#[test]
fn tests_test_issue_severity_display() {
    assert_eq!(IssueSeverity::Warning.to_string(), "WARNING");
    assert_eq!(IssueSeverity::Error.to_string(), "ERROR");
}

#[test]
fn tests_test_doctor_report_has_issues() {
    let mut report = DoctorReport::new();
    assert!(!report.has_issues());

    report
        .issues
        .push(Issue::new(IssueSeverity::Warning, "test", "test issue"));
    assert!(report.has_issues());
}

#[test]
fn tests_test_doctor_report_has_errors() {
    let mut report = DoctorReport::new();
    assert!(!report.has_errors());

    report
        .issues
        .push(Issue::new(IssueSeverity::Warning, "test", "warning issue"));
    assert!(!report.has_errors());

    report
        .issues
        .push(Issue::new(IssueSeverity::Error, "test", "error issue"));
    assert!(report.has_errors());
}

#[test]
fn tests_test_get_bucket_from_path() {
    let path_ready = "/some/path/.workflow/READY/TASK-001.md";
    assert_eq!(get_bucket_from_path(path_ready), Some("READY"));

    let path_doing = "/some/path/.workflow/DOING/TASK-001.md";
    assert_eq!(get_bucket_from_path(path_doing), Some("DOING"));

    let path_qa = "/some/path/.workflow/QA/TASK-001.md";
    assert_eq!(get_bucket_from_path(path_qa), Some("QA"));

    let path_done = "/some/path/.workflow/DONE/TASK-001.md";
    assert_eq!(get_bucket_from_path(path_done), Some("DONE"));

    let path_blocked = "/some/path/.workflow/BLOCKED/TASK-001.md";
    assert_eq!(get_bucket_from_path(path_blocked), Some("BLOCKED"));

    let path_unknown = "/some/path/OTHER/TASK-001.md";
    assert_eq!(get_bucket_from_path(path_unknown), None);
}

fn record(id: &str, bucket: &str, fm: TaskFrontmatter) -> TaskRecord {
    TaskRecord {
        info: TaskInfo {
            id: id.to_string(),
            number: 1,
            bucket: bucket.to_string(),
            path: format!("/repo/.burl/.workflow/{}/{}.md", bucket, id),
        },
        frontmatter: fm,
        worktree_exists: true,
        branch_exists: Some(true),
    }
}

#[test]
fn missing_directories_are_reported() {
    let mut report = DoctorReport::new();
    check_missing_directories("/w/locks", false, "/w/events", true, &mut report);
    assert_eq!(report.issues.len(), 1);
    assert_eq!(report.issues[0].category, "missing_directory");
    assert!(report.issues[0].repairable);
}

#[test]
fn stale_and_orphan_locks() {
    let locks = vec![
        LockSummary { name: "TASK-001".to_string(), path: "/l/TASK-001.lock".to_string(), age: "2h".to_string(), is_stale: true },
        LockSummary { name: "TASK-009".to_string(), path: "/l/TASK-009.lock".to_string(), age: "1m".to_string(), is_stale: false },
        LockSummary { name: "workflow".to_string(), path: "/l/workflow.lock".to_string(), age: "1m".to_string(), is_stale: false },
    ];
    let mut report = DoctorReport::new();
    check_stale_locks(&locks, 30, &mut report);
    assert_eq!(report.issues.len(), 1);
    assert_eq!(report.issues[0].category, "stale_lock");

    let index = TaskIndex {
        tasks: vec![TaskInfo { id: "TASK-001".to_string(), number: 1, bucket: "DOING".to_string(), path: "/t".to_string() }],
    };
    let mut report = DoctorReport::new();
    check_orphan_locks(&locks, &index, &mut report);
    assert_eq!(report.issues.len(), 1);
    assert!(report.issues[0].description.contains("TASK-009"));
}

#[test]
fn tasks_missing_state() {
    let fm = TaskFrontmatter {
        id: "TASK-001".to_string(),
        branch: Some("task-001".to_string()),
        worktree: Some(".worktrees/task-001".to_string()),
        ..Default::default()
    };
    let mut t = record("TASK-001", "DOING", fm);
    t.worktree_exists = false;
    t.branch_exists = Some(false);
    let tasks = vec![t];
    let mut report = DoctorReport::new();
    check_tasks_missing_base_sha(&tasks, &mut report);
    check_tasks_missing_worktree(&tasks, "/repo", &mut report);
    check_tasks_missing_branch(&tasks, &mut report);
    assert_eq!(report.issues.len(), 3);
    assert!(report.has_errors());
}

#[test]
fn orphan_worktrees_are_reported() {
    let wts = vec![
        WorktreeEntry { path: "/repo/.worktrees/task-001".to_string(), canonical: "/repo/.worktrees/task-001".to_string() },
        WorktreeEntry { path: "/repo/.worktrees/stray".to_string(), canonical: "/repo/.worktrees/stray".to_string() },
        WorktreeEntry { path: "/repo".to_string(), canonical: "/repo".to_string() },
    ];
    let referenced = vec!["/repo/.worktrees/task-001".to_string()];
    let mut report = DoctorReport::new();
    check_orphan_worktrees(&wts, &referenced, &mut report);
    assert_eq!(report.issues.len(), 1);
    assert_eq!(report.issues[0].path, Some("/repo/.worktrees/stray".to_string()));
}

#[test]
fn bucket_mismatches_and_repair() {
    let fm = TaskFrontmatter { id: "TASK-001".to_string(), submitted_at: Some(100), ..Default::default() };
    let tasks = vec![record("TASK-001", "DOING", fm.clone())];
    let mut report = DoctorReport::new();
    check_bucket_metadata_mismatches(&tasks, &mut report);
    assert_eq!(report.issues.len(), 1);
    assert!(report.issues[0].repairable);
    assert_eq!(
        plan_bucket_repair("/repo/.burl/.workflow/DOING/TASK-001.md", &fm),
        Some(("DOING", "QA"))
    );
    assert_eq!(plan_bucket_repair("/repo/.burl/.workflow/QA/TASK-001.md", &fm), None);

    // A task in the bucket its metadata calls for raises nothing.
    let consistent = vec![record("TASK-001", "QA", fm)];
    let mut report = DoctorReport::new();
    check_bucket_metadata_mismatches(&consistent, &mut report);
    assert!(!report.has_issues());
}

#[test]
fn repair_requires_force() {
    assert!(check_doctor_args(&DoctorArgs { repair: true, force: false }).is_err());
    assert!(check_doctor_args(&DoctorArgs { repair: true, force: true }).is_ok());
    assert!(check_doctor_args(&DoctorArgs { repair: false, force: false }).is_ok());
    let mut report = DoctorReport::new();
    report.issues.push(Issue::new(IssueSeverity::Warning, "x", "y"));
    let err = doctor_outcome(&DoctorArgs { repair: false, force: false }, &report).unwrap_err();
    assert_eq!(err.message(), "Found 1 issue(s). Run `burl doctor --repair --force` to apply safe repairs.");
}

#[test]
fn repairs_follow_repairable_issues() {
    let mut report = DoctorReport::new();
    report.issues.push(Issue::new(IssueSeverity::Warning, "missing_directory", "Missing locks/").with_path("/w/locks").repairable());
    report.issues.push(Issue::new(IssueSeverity::Warning, "stale_lock", "stale").with_path("/w/locks/TASK-001.lock").repairable());
    report.issues.push(Issue::new(IssueSeverity::Error, "orphan_worktree", "orphan").with_path("/r/.worktrees/x"));
    report.issues.push(Issue::new(IssueSeverity::Warning, "bucket_mismatch", "mismatch").with_path("/w/READY/TASK-002.md").repairable());
    report.issues.push(Issue::new(IssueSeverity::Warning, "orphan_lock", "no path").repairable());
    let plan = plan_repairs(&report);
    let kinds: Vec<(RepairKind, String)> = plan.iter().map(|r| (r.kind, r.path.clone())).collect();
    assert_eq!(
        kinds,
        vec![
            (RepairKind::CreateDirectory, "/w/locks".to_string()),
            (RepairKind::ClearLock, "/w/locks/TASK-001.lock".to_string()),
            (RepairKind::FixBucket, "/w/READY/TASK-002.md".to_string()),
        ]
    );
}

#[test]
fn lock_ids_come_from_file_stems() {
    assert_eq!(lock_id_from_path("/w/locks/TASK-001.lock"), "TASK-001");
    assert_eq!(lock_id_from_path("workflow.lock"), "workflow");
    assert_eq!(lock_id_from_path("/a/b.c.lock"), "b.c");
    assert_eq!(lock_id_from_path("/a/.lock"), ".lock");
    assert_eq!(lock_id_from_path("/a/claim"), "claim");
}

#[test]
fn repair_notes_and_commit_message() {
    let mut report = DoctorReport::new();
    note_created_dir(&mut report, "/w/events");
    note_cleared_lock(&mut report, true, "TASK-001");
    note_cleared_lock(&mut report, false, "TASK-009");
    note_moved_task(&mut report, "TASK-002", "READY", "DOING");
    assert_eq!(
        report.repairs,
        vec![
            "Created directory: /w/events".to_string(),
            "Cleared stale lock: TASK-001".to_string(),
            "Cleared orphan lock: TASK-009".to_string(),
            "Moved task TASK-002 from READY to DOING".to_string(),
        ]
    );
    assert_eq!(
        repair_commit_message(&report.repairs[..2].to_vec()),
        "burl doctor: apply 2 repair(s)\n\n  - Created directory: /w/events\n  - Cleared stale lock: TASK-001"
    );
}
