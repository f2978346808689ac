use burl::cli::LockClearArgs;
use burl::error::USER_ERROR;
use burl::locks::{check_lock_clear, format_cleared_lock, format_lock_list, lock_is_stale, lock_kind, LockKind, LockListing};

fn listing(name: &str, stale: bool, pid: Option<u32>) -> LockListing {
    LockListing {
        name: name.to_string(),
        kind: lock_kind(name),
        owner: "alice@host".to_string(),
        pid,
        created_at: 1_700_000_000,
        age: "2h5m".to_string(),
        action: "claim".to_string(),
        is_stale: stale,
        path: format!("/w/locks/{}.lock", name),
    }
}

#[test]
fn lock_clear_refuses_without_force() {
    let args = LockClearArgs { lock_id: "TASK-001".to_string(), force: false };
    let result = check_lock_clear(&args);
    assert!(result.is_err());
    let err = result.unwrap_err();
    assert_eq!(err.exit_code(), USER_ERROR);
    assert!(err.message().contains("--force"));
    assert!(err.message().ends_with("burl lock clear TASK-001 --force"));
}

#[test]
fn lock_clear_allowed_with_force() {
    let args = LockClearArgs { lock_id: "TASK-001".to_string(), force: true };
    assert!(check_lock_clear(&args).is_ok());
}

#[test]
fn lock_kinds_follow_names() {
    assert_eq!(lock_kind("workflow"), LockKind::Workflow);
    assert_eq!(lock_kind("claim"), LockKind::Claim);
    assert_eq!(lock_kind("TASK-007"), LockKind::Task);
}

#[test]
fn lock_list_text() {
    assert_eq!(format_lock_list(&vec![], 30), "No active locks.\n");
    let text = format_lock_list(&vec![listing("TASK-001", true, Some(42)), listing("workflow", false, None)], 30);
    let expected = [
        "Active locks (2):\n\n",
        "  TASK-001 (task):\n    Owner:      alice@host\n    PID:        42\n    Created:    2023-11-14 22:13:20 UTC\n",
        "    Age:        2h5m\n    Action:     claim\n    Status:     STALE (exceeds 30 min threshold)\n",
        "    Path:       /w/locks/TASK-001.lock\n\n",
        "  workflow (workflow):\n    Owner:      alice@host\n    Created:    2023-11-14 22:13:20 UTC\n",
        "    Age:        2h5m\n    Action:     claim\n    Path:       /w/locks/workflow.lock\n\n",
        "Note: 1 lock(s) are stale. Use `burl lock clear <lock-id> --force` to clear.\n",
    ]
    .concat();
    assert_eq!(text, expected);
}

#[test]
fn cleared_lock_text() {
    assert_eq!(
        format_cleared_lock(&listing("claim", true, None)),
        "Cleared lock: claim\n\nLock details:\n  Owner:      alice@host\n  Created:    2023-11-14 22:13:20 UTC\n  Age:        2h5m\n  Action:     claim\n  Status:     was STALE\n  Path:       /w/locks/claim.lock\n"
    );
}

#[test]
fn staleness_counts_whole_minutes() {
    assert!(!lock_is_stale(0, 30 * 60 + 59, 30));
    assert!(lock_is_stale(0, 31 * 60, 30));
    assert!(!lock_is_stale(100, 0, 0));
}
