use burl::args::CliError;
use burl::cli::{Cli, Command, LockAction};

fn parse(args: &[&str]) -> Result<Cli, CliError> {
    Cli::parse_args(args)
}

#[test]
fn cli_debug_assert() {
    // Every command and action of the grammar is reachable by its name.
    for name in [
        "init", "add", "status", "show", "claim", "submit", "validate", "approve", "reject", "worktree",
        "doctor", "clean", "watch", "monitor", "visualizer", "viz", "dashboard",
    ] {
        let r = parse(&["burl", name, "--help"]);
        assert_eq!(r.unwrap_err(), CliError::DisplayHelp, "{}", name);
    }
    for (group, action) in [("lock", "list"), ("lock", "clear"), ("agent", "run"), ("agent", "list")] {
        assert_eq!(parse(&["burl", group, action, "-h"]).unwrap_err(), CliError::DisplayHelp);
    }
}

#[test]
fn parse_init() {
    let cli = parse(&["burl", "init"]).unwrap();
    assert!(matches!(cli.command, Command::Init));
}

#[test]
fn parse_add_minimal() {
    let cli = parse(&["burl", "add", "My Task Title"]).unwrap();
    if let Command::Add(args) = cli.command {
        assert_eq!(args.title, "My Task Title");
        assert_eq!(args.priority, "medium");
        assert!(args.affects.is_empty());
    } else {
        panic!("Expected Add command");
    }
}

#[test]
fn parse_add_full() {
    let cli = parse(&[
        "burl",
        "add",
        "Implement feature",
        "--priority",
        "high",
        "--affects",
        "src/lib.rs,src/main.rs",
        "--must-not-touch",
        "src/tests/**",
        "--tags",
        "feature,v1",
    ])
    .unwrap();
    if let Command::Add(args) = cli.command {
        assert_eq!(args.title, "Implement feature");
        assert_eq!(args.priority, "high");
        assert_eq!(args.affects, vec!["src/lib.rs", "src/main.rs"]);
        assert_eq!(args.must_not_touch, vec!["src/tests/**"]);
        assert_eq!(args.tags, vec!["feature", "v1"]);
    } else {
        panic!("Expected Add command");
    }
}

#[test]
fn parse_status() {
    let cli = parse(&["burl", "status"]).unwrap();
    assert!(matches!(cli.command, Command::Status));
}

#[test]
fn parse_show() {
    let cli = parse(&["burl", "show", "TASK-001"]).unwrap();
    if let Command::Show(args) = cli.command {
        assert_eq!(args.task_id, "TASK-001");
    } else {
        panic!("Expected Show command");
    }
}

#[test]
fn parse_claim_with_id() {
    let cli = parse(&["burl", "claim", "TASK-001"]).unwrap();
    if let Command::Claim(args) = cli.command {
        assert_eq!(args.task_id, Some("TASK-001".to_string()));
    } else {
        panic!("Expected Claim command");
    }
}

#[test]
fn parse_claim_without_id() {
    let cli = parse(&["burl", "claim"]).unwrap();
    if let Command::Claim(args) = cli.command {
        assert_eq!(args.task_id, None);
    } else {
        panic!("Expected Claim command");
    }
}

#[test]
fn parse_submit_with_id() {
    let cli = parse(&["burl", "submit", "TASK-001"]).unwrap();
    if let Command::Submit(args) = cli.command {
        assert_eq!(args.task_id, Some("TASK-001".to_string()));
    } else {
        panic!("Expected Submit command");
    }
}

#[test]
fn parse_validate() {
    let cli = parse(&["burl", "validate", "TASK-001"]).unwrap();
    if let Command::Validate(args) = cli.command {
        assert_eq!(args.task_id, "TASK-001");
    } else {
        panic!("Expected Validate command");
    }
}

#[test]
fn parse_approve() {
    let cli = parse(&["burl", "approve", "TASK-001"]).unwrap();
    if let Command::Approve(args) = cli.command {
        assert_eq!(args.task_id, "TASK-001");
    } else {
        panic!("Expected Approve command");
    }
}

#[test]
fn parse_reject() {
    let cli = parse(&["burl", "reject", "TASK-001", "--reason", "Tests failing"]).unwrap();
    if let Command::Reject(args) = cli.command {
        assert_eq!(args.task_id, "TASK-001");
        assert_eq!(args.reason, "Tests failing");
    } else {
        panic!("Expected Reject command");
    }
}

#[test]
fn parse_worktree() {
    let cli = parse(&["burl", "worktree", "TASK-001"]).unwrap();
    if let Command::Worktree(args) = cli.command {
        assert_eq!(args.task_id, "TASK-001");
    } else {
        panic!("Expected Worktree command");
    }
}

#[test]
fn parse_lock_list() {
    let cli = parse(&["burl", "lock", "list"]).unwrap();
    if let Command::Lock(lock_cmd) = cli.command {
        assert!(matches!(lock_cmd.action, LockAction::List));
    } else {
        panic!("Expected Lock command");
    }
}

#[test]
fn parse_lock_clear() {
    let cli = parse(&["burl", "lock", "clear", "TASK-001", "--force"]).unwrap();
    if let Command::Lock(lock_cmd) = cli.command {
        if let LockAction::Clear(args) = lock_cmd.action {
            assert_eq!(args.lock_id, "TASK-001");
            assert!(args.force);
        } else {
            panic!("Expected Clear action");
        }
    } else {
        panic!("Expected Lock command");
    }
}

#[test]
fn parse_doctor() {
    let cli = parse(&["burl", "doctor"]).unwrap();
    if let Command::Doctor(args) = cli.command {
        assert!(!args.repair);
        assert!(!args.force);
    } else {
        panic!("Expected Doctor command");
    }
}

#[test]
fn parse_doctor_repair() {
    let cli = parse(&["burl", "doctor", "--repair", "--force"]).unwrap();
    if let Command::Doctor(args) = cli.command {
        assert!(args.repair);
        assert!(args.force);
    } else {
        panic!("Expected Doctor command");
    }
}

#[test]
fn parse_clean() {
    let cli = parse(&["burl", "clean", "--completed", "--orphans", "--yes"]).unwrap();
    if let Command::Clean(args) = cli.command {
        assert!(args.completed);
        assert!(args.orphans);
        assert!(args.yes);
    } else {
        panic!("Expected Clean command");
    }
}

#[test]
fn parse_watch_defaults() {
    let cli = parse(&["burl", "watch"]).unwrap();
    if let Command::Watch(args) = cli.command {
        assert_eq!(args.interval_ms, 2000);
        assert!(args.claim);
        assert!(args.qa);
        assert!(!args.approve);
        assert!(!args.once);
    } else {
        panic!("Expected Watch command");
    }
}

#[test]
fn parse_watch_disable_claim() {
    let cli = parse(&["burl", "watch", "--claim=false"]).unwrap();
    if let Command::Watch(args) = cli.command {
        assert!(!args.claim);
    } else {
        panic!("Expected Watch command");
    }
}

#[test]
fn parse_watch_approve_once() {
    let cli = parse(&["burl", "watch", "--approve", "--once"]).unwrap();
    if let Command::Watch(args) = cli.command {
        assert!(args.approve);
        assert!(args.once);
    } else {
        panic!("Expected Watch command");
    }
}

#[test]
fn parse_monitor_defaults() {
    let cli = parse(&["burl", "monitor"]).unwrap();
    if let Command::Monitor(args) = cli.command {
        assert_eq!(args.interval_ms, 1000);
        assert!(args.clear);
        assert_eq!(args.limit, 20);
        assert_eq!(args.tail, 10);
        assert!(!args.once);
    } else {
        panic!("Expected Monitor command");
    }
}

#[test]
fn parse_visualizer_alias() {
    let cli = parse(&["burl", "visualizer", "--once"]).unwrap();
    assert!(matches!(cli.command, Command::Monitor(_)));
}

#[test]
fn parse_value_forms() {
    let cli = parse(&["burl", "add", "-p", "low", "--affects=a,b", "--affects", "c", "T"]).unwrap();
    if let Command::Add(args) = cli.command {
        assert_eq!(args.priority, "low");
        assert_eq!(args.affects, vec!["a", "b", "c"]);
        assert_eq!(args.title, "T");
    } else {
        panic!("Expected Add command");
    }
    let cli = parse(&["burl", "reject", "TASK-001", "-rNope"]).unwrap();
    if let Command::Reject(args) = cli.command {
        assert_eq!(args.reason, "Nope");
    } else {
        panic!("Expected Reject command");
    }
    let cli = parse(&["burl", "monitor", "--limit", "5", "--interval-ms=250", "--clear", "false"]).unwrap();
    if let Command::Monitor(args) = cli.command {
        assert_eq!((args.limit, args.interval_ms, args.clear), (5, 250, false));
    } else {
        panic!("Expected Monitor command");
    }
    let cli = parse(&["burl", "agent", "run", "TASK-001", "--agent", "code-agent", "--dry-run"]).unwrap();
    if let Command::Agent(a) = cli.command {
        if let burl::cli::AgentAction::Run(r) = a.action {
            assert_eq!(r.task_id, "TASK-001");
            assert_eq!(r.agent, Some("code-agent".to_string()));
            assert!(r.dry_run);
        } else {
            panic!("Expected Run action");
        }
    } else {
        panic!("Expected Agent command");
    }
    let cli = parse(&["burl", "show", "--", "-weird"]).unwrap();
    if let Command::Show(args) = cli.command {
        assert_eq!(args.task_id, "-weird");
    } else {
        panic!("Expected Show command");
    }
}

#[test]
fn parse_errors() {
    assert_eq!(parse(&["burl"]).unwrap_err(), CliError::MissingSubcommand);
    assert_eq!(parse(&["burl", "--version"]).unwrap_err(), CliError::DisplayVersion);
    assert_eq!(parse(&["burl", "frobnicate"]).unwrap_err(), CliError::InvalidSubcommand("frobnicate".to_string()));
    assert_eq!(parse(&["burl", "lock"]).unwrap_err(), CliError::MissingSubcommand);
    assert_eq!(parse(&["burl", "init", "--bogus"]).unwrap_err(), CliError::UnknownArgument("--bogus".to_string()));
    assert_eq!(parse(&["burl", "init", "extra"]).unwrap_err(), CliError::UnexpectedArgument("extra".to_string()));
    assert_eq!(
        parse(&["burl", "show"]).unwrap_err(),
        CliError::MissingRequired(vec!["<TASK_ID>".to_string()])
    );
    assert_eq!(
        parse(&["burl", "reject"]).unwrap_err(),
        CliError::MissingRequired(vec!["<TASK_ID>".to_string(), "--reason <REASON>".to_string()])
    );
    assert_eq!(
        parse(&["burl", "reject", "T", "--reason"]).unwrap_err(),
        CliError::MissingValue("--reason".to_string())
    );
    assert_eq!(
        parse(&["burl", "doctor", "--force", "--force"]).unwrap_err(),
        CliError::ArgumentConflict("--force".to_string())
    );
    assert_eq!(
        parse(&["burl", "doctor", "--force=yes"]).unwrap_err(),
        CliError::UnexpectedValue("--force".to_string(), "yes".to_string())
    );
    assert_eq!(
        parse(&["burl", "watch", "--claim", "maybe"]).unwrap_err(),
        CliError::InvalidValue("--claim".to_string(), "maybe".to_string())
    );
    assert_eq!(
        parse(&["burl", "watch", "--interval-ms", "12x"]).unwrap_err(),
        CliError::InvalidValue("--interval-ms".to_string(), "12x".to_string())
    );
    assert_eq!(parse(&["burl", "watch", "--interval-ms", "-5"]).unwrap_err(), CliError::MissingValue("--interval-ms".to_string()));
    assert_eq!(CliError::DisplayHelp.exit_code(), 0);
    assert_eq!(CliError::MissingSubcommand.exit_code(), 2);
}
