use burl::context::{extract_sections, parse_heading, TaskContext};
use burl::task::{TaskFile, TaskFrontmatter};

fn make_task(body: &str) -> TaskFile {
    TaskFile {
        frontmatter: TaskFrontmatter {
            id: "TASK-001".to_string(),
            title: "Test Task".to_string(),
            priority: "high".to_string(),
            affects: vec!["src/main.rs".to_string(), "src/lib.rs".to_string()],
            affects_globs: vec!["src/**/*.rs".to_string()],
            must_not_touch: vec!["config.yaml".to_string()],
            tags: vec!["feature".to_string(), "agent".to_string()],
            depends_on: vec!["TASK-000".to_string()],
            worktree: Some("/path/to/worktree".to_string()),
            branch: Some("task-001".to_string()),
            base_sha: Some("abc123".to_string()),
            ..Default::default()
        },
        body: body.to_string(),
    }
}

#[test]
fn test_extract_sections_basic() {
    let body = r#"
## Objective
Do something useful.

## Acceptance Criteria
- Item 1
- Item 2

## Context
Some background info.
"#;
    let sections = extract_sections(body);

    assert_eq!(
        sections.get("objective"),
        Some(&"Do something useful.".to_string())
    );
    assert_eq!(
        sections.get("acceptance_criteria"),
        Some(&"- Item 1\n- Item 2".to_string())
    );
    assert_eq!(
        sections.get("context"),
        Some(&"Some background info.".to_string())
    );
}

#[test]
fn test_extract_sections_h3() {
    let body = r#"
### Objective
Using h3 heading.

### Test Plan
1. Run tests
2. Check output
"#;
    let sections = extract_sections(body);

    assert_eq!(
        sections.get("objective"),
        Some(&"Using h3 heading.".to_string())
    );
    assert_eq!(
        sections.get("test_plan"),
        Some(&"1. Run tests\n2. Check output".to_string())
    );
}

#[test]
fn test_extract_sections_case_insensitive() {
    let body = r#"
## OBJECTIVE
Uppercase heading.

## acceptance criteria
Lowercase heading.
"#;
    let sections = extract_sections(body);

    assert!(sections.contains_key("objective"));
    assert!(sections.contains_key("acceptance_criteria"));
}

#[test]
fn test_extract_sections_empty_body() {
    let sections = extract_sections("");
    assert!(sections.is_empty());
}

#[test]
fn test_extract_sections_no_sections() {
    let body = "Just some text without headings.";
    let sections = extract_sections(body);
    assert!(sections.is_empty());
}

#[test]
fn test_task_context_from_task() {
    let body = r#"
## Objective
Implement the feature.

## Acceptance Criteria
- Tests pass
- No regressions
"#;
    let task = make_task(body);
    let ctx = TaskContext::from_task(&task);

    assert_eq!(ctx.task_id, "TASK-001");
    assert_eq!(ctx.title, "Test Task");
    assert_eq!(ctx.priority, "high");
    assert_eq!(ctx.affects, vec!["src/main.rs", "src/lib.rs"]);
    assert_eq!(ctx.affects_globs, vec!["src/**/*.rs"]);
    assert_eq!(ctx.must_not_touch, vec!["config.yaml"]);
    assert_eq!(ctx.tags, vec!["feature", "agent"]);
    assert_eq!(ctx.depends_on, vec!["TASK-000"]);
    assert_eq!(ctx.worktree, Some("/path/to/worktree".to_string()));
    assert_eq!(ctx.branch, Some("task-001".to_string()));
    assert_eq!(ctx.base_sha, Some("abc123".to_string()));
    assert_eq!(ctx.objective, "Implement the feature.");
    assert_eq!(ctx.acceptance_criteria, "- Tests pass\n- No regressions");
}

#[test]
fn test_to_template_vars() {
    let body = r#"
## Objective
Test objective.
"#;
    let task = make_task(body);
    let ctx = TaskContext::from_task(&task);
    let vars = ctx.to_template_vars();

    assert_eq!(vars.get("task_id"), Some(&"TASK-001".to_string()));
    assert_eq!(vars.get("title"), Some(&"Test Task".to_string()));
    assert_eq!(vars.get("priority"), Some(&"high".to_string()));
    assert_eq!(
        vars.get("affects"),
        Some(&"src/main.rs, src/lib.rs".to_string())
    );
    assert_eq!(vars.get("affects_globs"), Some(&"src/**/*.rs".to_string()));
    assert_eq!(vars.get("must_not_touch"), Some(&"config.yaml".to_string()));
    assert_eq!(vars.get("tags"), Some(&"feature, agent".to_string()));
    assert_eq!(vars.get("depends_on"), Some(&"TASK-000".to_string()));
    assert_eq!(vars.get("worktree"), Some(&"/path/to/worktree".to_string()));
    assert_eq!(vars.get("branch"), Some(&"task-001".to_string()));
    assert_eq!(vars.get("base_sha"), Some(&"abc123".to_string()));
    assert_eq!(vars.get("objective"), Some(&"Test objective.".to_string()));
}

#[test]
fn test_to_template_vars_empty_lists() {
    let task = TaskFile {
        frontmatter: TaskFrontmatter {
            id: "TASK-002".to_string(),
            title: "Empty Task".to_string(),
            ..Default::default()
        },
        body: String::new(),
    };
    let ctx = TaskContext::from_task(&task);
    let vars = ctx.to_template_vars();

    assert_eq!(vars.get("affects"), Some(&"".to_string()));
    assert_eq!(vars.get("tags"), Some(&"".to_string()));
    assert_eq!(vars.get("worktree"), Some(&"".to_string()));
}

#[test]
fn test_add_runtime_vars() {
    let task = make_task("");
    let ctx = TaskContext::from_task(&task);
    let mut vars = ctx.to_template_vars();

    ctx.add_runtime_vars(
        &mut vars,
        Some("/path/to/task.md"),
        Some("/path/to/prompt.md"),
    );

    assert_eq!(vars.get("task_file"), Some(&"/path/to/task.md".to_string()));
    assert_eq!(
        vars.get("prompt_file"),
        Some(&"/path/to/prompt.md".to_string())
    );
}

#[test]
fn test_parse_heading() {
    assert_eq!(parse_heading("## Objective"), Some("objective".to_string()));
    assert_eq!(
        parse_heading("### Test Plan"),
        Some("test_plan".to_string())
    );
    assert_eq!(
        parse_heading("## Acceptance Criteria"),
        Some("acceptance_criteria".to_string())
    );
    assert_eq!(
        parse_heading("##   Spaced  Heading  "),
        Some("spaced__heading".to_string())
    );
    assert_eq!(parse_heading("# Not h2"), None);
    assert_eq!(parse_heading("Just text"), None);
    assert_eq!(parse_heading("##"), None);
    assert_eq!(parse_heading("###"), None);
}

#[test]
fn test_multiline_section_content() {
    let body = r#"
## Objective
Line 1.
Line 2.
Line 3.

## Context
Single line.
"#;
    let sections = extract_sections(body);

    assert_eq!(
        sections.get("objective"),
        Some(&"Line 1.\nLine 2.\nLine 3.".to_string())
    );
    assert_eq!(sections.get("context"), Some(&"Single line.".to_string()));
}

#[test]
fn test_section_with_code_block() {
    let body = r#"
## Implementation Notes
Here's some code:

```rust
fn main() {
    println!("hello");
}
```

End of notes.
"#;
    let sections = extract_sections(body);
    let notes = sections.get("implementation_notes").unwrap();

    assert!(notes.contains("```rust"));
    assert!(notes.contains("fn main()"));
    assert!(notes.contains("End of notes."));
}

#[test]
fn test_full_body_preserved() {
    let body = "This is the full body content.\n\n## Section\nContent here.";
    let task = make_task(body);
    let ctx = TaskContext::from_task(&task);

    assert_eq!(ctx.full_body, body);

    let vars = ctx.to_template_vars();
    assert_eq!(vars.get("body"), Some(&body.to_string()));
}
