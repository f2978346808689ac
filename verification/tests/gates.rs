use burl::diff::{parse_added_lines, parse_changed_files};
use burl::error::BurlError;
use burl::gates::{
    run_validation, scope_error, stub_error, submit_gate, validate_scope, validate_stubs, AddedLine,
};
use burl::task::TaskFrontmatter;
use burl::validation::{ValidationStepResult, ValidationStepStatus};

fn frontmatter(affects: &[&str], globs: &[&str], forbidden: &[&str]) -> TaskFrontmatter {
    TaskFrontmatter {
        id: "TASK-001".to_string(),
        title: "Gate task".to_string(),
        affects: affects.iter().map(|s| s.to_string()).collect(),
        affects_globs: globs.iter().map(|s| s.to_string()).collect(),
        must_not_touch: forbidden.iter().map(|s| s.to_string()).collect(),
        ..Default::default()
    }
}

fn files(names: &[&str]) -> Vec<String> {
    names.iter().map(|s| s.to_string()).collect()
}

fn added(file: &str, line: u32, content: &str) -> AddedLine {
    AddedLine { file: file.to_string(), line, content: content.to_string() }
}

fn strings(items: &[&str]) -> Vec<String> {
    items.iter().map(|s| s.to_string()).collect()
}

#[test]
fn scope_passes_for_declared_file() {
    let fm = frontmatter(&["allowed/file.rs"], &[], &[]);
    let r = validate_scope(&fm, &files(&["allowed/file.rs"]));
    assert!(r.passed);
    assert!(r.forbidden.is_empty());
    assert!(r.outside.is_empty());
}

#[test]
fn scope_passes_inside_declared_directory() {
    let fm = frontmatter(&["allowed"], &[], &[]);
    let r = validate_scope(&fm, &files(&["allowed/sub/x.rs", "allowed"]));
    assert!(r.passed);
}

#[test]
fn scope_rejects_sibling_with_shared_prefix() {
    let fm = frontmatter(&["allowed"], &[], &[]);
    let r = validate_scope(&fm, &files(&["allowed_other/x.rs"]));
    assert!(!r.passed);
    assert_eq!(r.outside, files(&["allowed_other/x.rs"]));
}

#[test]
fn scope_fails_outside_declared_scope() {
    let fm = frontmatter(&["allowed/file.rs"], &[], &[]);
    let r = validate_scope(&fm, &files(&["allowed/file.rs", "not_allowed/bad.rs"]));
    assert!(!r.passed);
    assert!(r.forbidden.is_empty());
    assert_eq!(r.outside, files(&["not_allowed/bad.rs"]));
    assert_eq!(
        scope_error(&r, "TASK-001"),
        "scope violation in task TASK-001:\n\nFiles outside affects/affects_globs:\n  - not_allowed/bad.rs\n\nFix: revert these changes, or extend the task's affects/affects_globs."
    );
}

#[test]
fn scope_passes_through_glob() {
    let fm = frontmatter(&[], &["src/**"], &[]);
    let r = validate_scope(&fm, &files(&["src/a.rs", "src/deep/b.rs"]));
    assert!(r.passed);
}

#[test]
fn scope_reports_must_not_touch() {
    let fm = frontmatter(&[], &["src/**"], &["src/generated/**", "Cargo.lock"]);
    let r = validate_scope(&fm, &files(&["src/generated/a.rs", "Cargo.lock", "src/ok.rs", "docs/x.md"]));
    assert!(!r.passed);
    assert_eq!(r.forbidden, files(&["src/generated/a.rs", "Cargo.lock"]));
    assert_eq!(r.outside, files(&["docs/x.md"]));
    assert_eq!(
        scope_error(&r, "TASK-002"),
        "scope violation in task TASK-002:\n\nFiles matching must_not_touch:\n  - src/generated/a.rs\n  - Cargo.lock\n\nFiles outside affects/affects_globs:\n  - docs/x.md\n\nFix: revert these changes, or extend the task's affects/affects_globs."
    );
}

#[test]
fn scope_passes_with_no_changes() {
    let fm = frontmatter(&[], &[], &[]);
    let r = validate_scope(&fm, &Vec::new());
    assert!(r.passed);
}

#[test]
fn stubs_found_in_checked_file() {
    let r = validate_stubs(
        &strings(&["TODO", "unimplemented!"]),
        &strings(&["rs"]),
        &vec![added("src/lib.rs", 3, "    // TODO fix"), added("src/lib.rs", 4, "let x = 1;")],
    );
    assert!(!r.passed);
    assert_eq!(r.hits.len(), 1);
    assert_eq!(r.hits[0].line, 3);
    assert_eq!(
        stub_error(&r),
        "stub patterns found in added lines:\n  - src/lib.rs:3: // TODO fix\n\nFix: replace placeholder code with a real implementation before submitting."
    );
}

#[test]
fn stubs_skip_unchecked_extensions() {
    let lines = vec![added("README.md", 1, "TODO: write docs")];
    let r = validate_stubs(&strings(&["TODO"]), &strings(&["rs", ".py"]), &lines);
    assert!(r.passed);
    assert!(r.hits.is_empty());
    let all = validate_stubs(&strings(&["TODO"]), &Vec::new(), &lines);
    assert!(!all.passed);
}

#[test]
fn stubs_extension_with_dot() {
    let r = validate_stubs(
        &strings(&["unimplemented!"]),
        &strings(&[".rs"]),
        &vec![added("src/a.rs", 10, "unimplemented!()")],
    );
    assert!(!r.passed);
}

#[test]
fn stubs_empty_pattern_matches_nothing() {
    let r = validate_stubs(&strings(&[""]), &Vec::new(), &vec![added("src/a.rs", 1, "anything")]);
    assert!(r.passed);
}

#[test]
fn run_validation_puts_gates_first() {
    let fm = frontmatter(&["allowed/file.rs"], &[], &[]);
    let scope = validate_scope(&fm, &files(&["not_allowed/bad.rs"]));
    let stubs = validate_stubs(&strings(&["TODO"]), &Vec::new(), &Vec::new());
    let r = run_validation(&scope, &stubs, "TASK-001", vec![ValidationStepResult::pass("build")]);
    let names: Vec<&str> = r.results.iter().map(|s| s.name.as_str()).collect();
    assert_eq!(names, vec!["scope", "stubs", "build"]);
    assert_eq!(r.results[0].status, ValidationStepStatus::Fail);
    assert_eq!(r.results[0].message.as_deref(), Some(scope_error(&scope, "TASK-001").as_str()));
    assert_eq!(r.results[1].status, ValidationStepStatus::Pass);
    assert!(!r.all_passed);
}

#[test]
fn run_validation_passes_when_all_pass() {
    let fm = frontmatter(&["src"], &[], &[]);
    let scope = validate_scope(&fm, &files(&["src/a.rs"]));
    let stubs = validate_stubs(&strings(&["TODO"]), &Vec::new(), &vec![added("src/a.rs", 1, "fn a() {}")]);
    let r = run_validation(&scope, &stubs, "TASK-001", vec![ValidationStepResult::skip("test", "no command")]);
    assert_eq!(r.results.len(), 3);
    assert!(r.all_passed);
    let failing = run_validation(&scope, &stubs, "TASK-001", vec![ValidationStepResult::fail("test", "boom")]);
    assert!(!failing.all_passed);
}

#[test]
fn submit_gate_checks_scope_then_stubs() {
    let fm = frontmatter(&["src"], &[], &[]);
    let bad_scope = validate_scope(&fm, &files(&["lib/x.rs"]));
    let good_scope = validate_scope(&fm, &files(&["src/x.rs"]));
    let bad_stubs = validate_stubs(&strings(&["FIXME"]), &Vec::new(), &vec![added("src/x.rs", 2, "FIXME")]);
    let good_stubs = validate_stubs(&strings(&["FIXME"]), &Vec::new(), &Vec::new());

    match submit_gate(&bad_scope, &bad_stubs, "TASK-007") {
        Err(e @ BurlError::ValidationError(_)) => {
            assert_eq!(e.exit_code(), 2);
            assert_eq!(e.message(), scope_error(&bad_scope, "TASK-007"));
        }
        other => panic!("unexpected: {:?}", other),
    }
    match submit_gate(&good_scope, &bad_stubs, "TASK-007") {
        Err(BurlError::ValidationError(m)) => assert_eq!(m, stub_error(&bad_stubs)),
        other => panic!("unexpected: {:?}", other),
    }
    assert!(submit_gate(&good_scope, &good_stubs, "TASK-007").is_ok());
}

#[test]
fn changed_files_from_name_list() {
    assert_eq!(parse_changed_files("src/a.rs\n\n  src/b.rs \n"), files(&["src/a.rs", "src/b.rs"]));
    assert!(parse_changed_files("").is_empty());
}

#[test]
fn added_lines_from_unified_diff() {
    let diff = "diff --git a/src/lib.rs b/src/lib.rs\nindex 1..2 100644\n--- a/src/lib.rs\n+++ b/src/lib.rs\n@@ -3,0 +4,2 @@ fn main() {\n+// TODO later\n++++ not a header\ndiff --git a/old.rs b/old.rs\ndeleted file mode 100644\n--- a/old.rs\n+++ /dev/null\n@@ -1 +0,0 @@\n-gone\ndiff --git a/new.txt b/new.txt\n--- /dev/null\n+++ b/new.txt\n@@ -0,0 +1 @@\n+hello\n";
    let lines = parse_added_lines(diff);
    assert_eq!(lines.len(), 3);
    assert_eq!((lines[0].file.as_str(), lines[0].line, lines[0].content.as_str()), ("src/lib.rs", 4, "// TODO later"));
    assert_eq!((lines[1].file.as_str(), lines[1].line, lines[1].content.as_str()), ("src/lib.rs", 5, "+++ not a header"));
    assert_eq!((lines[2].file.as_str(), lines[2].line, lines[2].content.as_str()), ("new.txt", 1, "hello"));
}

#[test]
fn added_lines_count_context_lines() {
    let diff = "diff --git a/a.rs b/a.rs\n--- a/a.rs\n+++ b/a.rs\n@@ -10,3 +10,4 @@\n keep\n-old\n+new\n keep\n+end\n";
    let lines = parse_added_lines(diff);
    assert_eq!(lines.len(), 2);
    assert_eq!(lines[0].line, 11);
    assert_eq!(lines[1].line, 13);
}
