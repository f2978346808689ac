use burl::validation::{
    build_command_args, choose_validation_profile, empty_profile_step, format_build_error,
    format_validation_summary, has_build_command, truncate_output, unknown_profile_step, BuildTestResult,
    ValidationResult, ValidationStepResult, ValidationStepStatus,
};

#[test]
fn approve_test_validation_step_result() {
    let pass = ValidationStepResult::pass("scope");
    assert!(pass.passed());
    assert_eq!(pass.name, "scope");
    assert!(pass.message.is_none());

    let fail = ValidationStepResult::fail("stubs", "Found TODO");
    assert!(!fail.passed());
    assert_eq!(fail.name, "stubs");
    assert_eq!(fail.message, Some("Found TODO".to_string()));
}

#[test]
fn validation_test_validation_step_result() {
    let pass = ValidationStepResult::pass("scope");
    assert_eq!(pass.status, ValidationStepStatus::Pass);
    assert_eq!(pass.name, "scope");
    assert!(pass.message.is_none());

    let fail = ValidationStepResult::fail("stubs", "Found TODO");
    assert_eq!(fail.status, ValidationStepStatus::Fail);
    assert_eq!(fail.name, "stubs");
    assert_eq!(fail.message, Some("Found TODO".to_string()));
}

#[test]
fn approve_test_format_validation_summary() {
    let results = vec![
        ValidationStepResult::pass("scope"),
        ValidationStepResult::fail("stubs", "Found TODO in src/lib.rs"),
    ];
    let summary = format_validation_summary(&results, false, 1_700_000_000);

    assert!(summary.contains("**Result:** FAIL"));
    assert!(summary.contains("**scope**: PASS"));
    assert!(summary.contains("**stubs**: FAIL"));
    assert!(summary.contains("Found TODO"));
}

#[test]
fn validation_test_format_validation_summary() {
    let results = vec![
        ValidationStepResult::pass("scope"),
        ValidationStepResult::fail("stubs", "Found TODO in src/lib.rs"),
    ];
    let summary = format_validation_summary(&results, false, 1_700_000_000);

    assert!(summary.contains("**Result:** FAIL"));
    assert!(summary.contains("**scope**: PASS"));
    assert!(summary.contains("**stubs**: FAIL"));
    assert!(summary.contains("Found TODO"));
}

#[test]
fn summary_exact_text() {
    let results = vec![
        ValidationStepResult::pass("scope"),
        ValidationStepResult::skip("validation", "line one\nline two"),
    ];
    let summary = format_validation_summary(&results, true, 0);
    assert_eq!(
        summary,
        "### Validation Run (approve): 1970-01-01 00:00:00 UTC\n\n**Result:** PASS\n\n- **scope**: PASS\n- **validation**: SKIP\n  line one\n  line two\n"
    );
}

#[test]
fn test_truncate_output_within_limits() {
    let output = "line1\nline2\nline3";
    let result = truncate_output(output, 10, 1000);
    assert_eq!(result, "line1\nline2\nline3");
}

#[test]
fn test_truncate_output_exceeds_lines() {
    let output = "line1\nline2\nline3\nline4\nline5";
    let result = truncate_output(output, 3, 1000);
    assert_eq!(result, "line3\nline4\nline5");
}

#[test]
fn truncate_output_exceeds_chars() {
    let output = "abcdef\nghij";
    let result = truncate_output(output, 10, 4);
    assert_eq!(result, "...(truncated)...\nghij");
}

#[test]
fn build_error_message() {
    let r = BuildTestResult {
        passed: false,
        exit_code: 1,
        stdout: "compiling".to_string(),
        stderr: "error: boom".to_string(),
    };
    assert_eq!(
        format_build_error(&r),
        "Build/test failed with exit code 1\n\nOutput (truncated):\n```\ncompiling\nerror: boom\n```\n"
    );
    let quiet = BuildTestResult { passed: false, exit_code: -1, stdout: String::new(), stderr: String::new() };
    assert_eq!(format_build_error(&quiet), "Build/test failed with exit code -1\n");
}

#[test]
fn validation_result_all_passed() {
    let ok = ValidationResult::from_steps(vec![
        ValidationStepResult::pass("scope"),
        ValidationStepResult::skip("validation", "none"),
    ]);
    assert!(ok.all_passed);
    let bad = ValidationResult::from_steps(vec![
        ValidationStepResult::pass("scope"),
        ValidationStepResult::fail("stubs", "TODO"),
    ]);
    assert!(!bad.all_passed);
    assert_eq!(bad.results.len(), 2);
}

#[test]
fn profile_choice_and_steps() {
    assert_eq!(
        choose_validation_profile(&Some("task".to_string()), &Some("default".to_string())),
        Some("task".to_string())
    );
    assert_eq!(choose_validation_profile(&None, &Some("default".to_string())), Some("default".to_string()));
    assert_eq!(choose_validation_profile(&None, &None), None);
    let u = unknown_profile_step("fast");
    assert_eq!(u.status, ValidationStepStatus::Fail);
    assert_eq!(
        u.message,
        Some("unknown validation_profile 'fast'.\nFix: add validation_profiles.fast to config.yaml or unset validation_profile on the task.".to_string())
    );
    let e = empty_profile_step("fast");
    assert_eq!(e.status, ValidationStepStatus::Skip);
    assert_eq!(e.message, Some("validation_profile 'fast' has no steps".to_string()));
}

#[test]
fn legacy_build_command() {
    assert!(!has_build_command("   "));
    assert!(has_build_command("cargo test"));
    assert_eq!(build_command_args("cargo test --all").unwrap(), vec!["cargo", "test", "--all"]);
    assert_eq!(build_command_args("sh -c 'make all'").unwrap(), vec!["sh", "-c", "make all"]);
    let e = build_command_args("echo 'oops").unwrap_err();
    assert_eq!(
        e.message(),
        "failed to parse build_command 'echo 'oops': missing closing quote\n\nFix: check for unmatched quotes or invalid escape sequences in config.yaml build_command."
    );
    let e = build_command_args("").unwrap_err();
    assert!(e.message().starts_with("build_command is empty after parsing."));
}
