use burl::error::BurlError;
use burl::naming::{
    generate_task_filename, generate_task_id, next_task_number, parse_task_filename, slugify_title, task_branch_name,
    validate_task_id,
};
use burl::report::find_task_to_show;
use burl::task::{TaskIndex, TaskInfo};

fn info(id: &str, number: u32, bucket: &str) -> TaskInfo {
    TaskInfo {
        id: id.to_string(),
        number,
        bucket: bucket.to_string(),
        path: format!("/w/{}/{}.md", bucket, id),
    }
}

#[test]
fn slugs_keep_ascii_words() {
    assert_eq!(slugify_title("Test claim task"), "test-claim-task");
    assert_eq!(slugify_title("  Implement player jump!! (v2) "), "implement-player-jump-v2");
    assert_eq!(slugify_title("Über café"), "ber-caf");
    assert_eq!(slugify_title("***"), "");
}

#[test]
fn ids_are_padded_to_three_digits() {
    assert_eq!(generate_task_id(1), "TASK-001");
    assert_eq!(generate_task_id(42), "TASK-042");
    assert_eq!(generate_task_id(1234), "TASK-1234");
}

#[test]
fn file_and_branch_names() {
    assert_eq!(generate_task_filename("TASK-001", "Test claim task"), "TASK-001-test-claim-task.md");
    assert_eq!(generate_task_filename("TASK-002", "!!!"), "TASK-002.md");
    assert_eq!(task_branch_name("TASK-001", "Test claim task"), "task-001-test-claim-task");
}

#[test]
fn next_number_follows_the_largest() {
    let empty = TaskIndex { tasks: vec![] };
    assert_eq!(next_task_number(&empty), Some(1));
    let index = TaskIndex { tasks: vec![info("TASK-003", 3, "DONE"), info("TASK-001", 1, "READY")] };
    assert_eq!(next_task_number(&index), Some(4));
    let full = TaskIndex { tasks: vec![info("TASK-4294967295", u32::MAX, "READY")] };
    assert_eq!(next_task_number(&full), None);
}

#[test]
fn task_ids_are_normalized_and_checked() {
    assert_eq!(validate_task_id("task-001").unwrap(), "TASK-001");
    assert_eq!(validate_task_id("TASK-12").unwrap(), "TASK-12");
    match validate_task_id("invalid") {
        Err(BurlError::UserError(m)) => assert!(m.contains("expected TASK-<number>")),
        other => panic!("unexpected: {:?}", other),
    }
    match validate_task_id("../TASK-001") {
        Err(BurlError::UserError(m)) => assert!(m.contains("path traversal")),
        other => panic!("unexpected: {:?}", other),
    }
    assert!(validate_task_id("TASK-").is_err());
    assert!(validate_task_id("TASK-1a").is_err());
}

#[test]
fn show_reports_unknown_tasks() {
    let index = TaskIndex { tasks: vec![info("TASK-001", 1, "QA")] };
    assert_eq!(find_task_to_show(&index, "TASK-001").unwrap().bucket, "QA");
    match find_task_to_show(&index, "TASK-999") {
        Err(BurlError::UserError(m)) => {
            assert!(m.contains("not found"));
            assert!(m.contains("Searched buckets: READY, DOING, QA, DONE, BLOCKED"));
        },
        other => panic!("unexpected: {:?}", other.map(|i| i.id.clone())),
    }
}

#[test]
fn task_file_names_are_read() {
    assert_eq!(parse_task_filename("TASK-001-test-claim-task.md"), Some(("TASK-001".to_string(), 1)));
    assert_eq!(parse_task_filename("TASK-12.md"), Some(("TASK-12".to_string(), 12)));
    assert_eq!(parse_task_filename("TASK-x.md"), None);
    assert_eq!(parse_task_filename("TASK-001-notes.txt"), None);
    assert_eq!(parse_task_filename("task-001.md"), None);
    assert_eq!(parse_task_filename("TASK-99999999999.md"), None);
    assert_eq!(parse_task_filename("TASK-4294967295.md"), Some(("TASK-4294967295".to_string(), u32::MAX)));
}

#[test]
fn generated_file_names_read_back() {
    for n in [1u32, 42, 999, 1000, u32::MAX] {
        let id = generate_task_id(n);
        for title in ["Some title", "", "!!"] {
            let file = generate_task_filename(&id, title);
            assert_eq!(parse_task_filename(&file), Some((id.clone(), n)));
        }
    }
}

#[test]
fn slugs_have_single_inner_dashes() {
    let s = slugify_title("--A  b__c--");
    assert_eq!(s, "a-b-c");
    assert!(!s.starts_with('-') && !s.ends_with('-') && !s.contains("--"));
}
