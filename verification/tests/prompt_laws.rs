use burl::agent::default_prompt_template_content;
use burl::context::TaskContext;
use burl::strmap::{vars, StrMap};
use burl::task::{TaskFile, TaskFrontmatter};
use burl::template::{render_template, TemplateError};

fn task(title: &str, body: &str) -> TaskFile {
    TaskFile {
        frontmatter: TaskFrontmatter {
            id: "TASK-042".to_string(),
            title: title.to_string(),
            affects: vec!["src/lib.rs".to_string()],
            ..Default::default()
        },
        body: body.to_string(),
    }
}

#[test]
fn rendering_a_concatenation_joins_the_parts() {
    let v = vars(&[("a", "1"), ("b", "2")]);
    let first = render_template("x {a} y", &v).unwrap();
    let second = render_template("{b}}} z", &v).unwrap();
    let whole = render_template("x {a} y{b}}} z", &v).unwrap();
    assert_eq!(whole, format!("{}{}", first, second));
    assert_eq!(whole, "x 1 y2} z");
}

#[test]
fn closing_braces_across_the_join_pair_up() {
    let v = StrMap::new();
    let first = render_template("a}", &v).unwrap();
    let second = render_template("}b", &v).unwrap();
    assert_eq!(format!("{}{}", first, second), "a}}b");
    assert_eq!(render_template("a}}b", &v).unwrap(), "a}b");
}

#[test]
fn failures_point_at_an_opening_brace() {
    let v = vars(&[("known", "k")]);
    let t = "ab {known} { missing } end";
    match render_template(t, &v) {
        Err(TemplateError::UndefinedVariable { name, position }) => {
            assert_eq!(name, "missing");
            assert_eq!(t.as_bytes()[position], b'{');
            assert_eq!(position, 11);
        }
        other => panic!("unexpected: {:?}", other),
    }
    let t = "é {known} {open";
    match render_template(t, &v) {
        Err(TemplateError::UnmatchedBrace { position }) => {
            assert_eq!(t.as_bytes()[position], b'{');
            assert!(!t[position + 1..].contains('}'));
        }
        other => panic!("unexpected: {:?}", other),
    }
    let t = "x {}";
    match render_template(t, &v) {
        Err(TemplateError::EmptyVariableName { position }) => assert!(t[position..].starts_with("{}")),
        other => panic!("unexpected: {:?}", other),
    }
}

#[test]
fn default_template_renders_for_a_context() {
    let ctx = TaskContext::from_task(&task("Ship the gates", "## Objective\nDo it.\n"));
    let out = render_template(default_prompt_template_content(), &ctx.to_template_vars()).unwrap();
    assert!(out.starts_with("# Task: Ship the gates\n"));
    assert!(out.contains("## Objective\nDo it.\n"));
    assert!(out.contains("- Affected files: src/lib.rs\n"));
    assert!(out.ends_with("run `burl submit TASK-042` to submit for review.\n"));
}

#[test]
fn default_template_renders_for_an_empty_context() {
    let ctx = TaskContext::from_task(&task("", ""));
    let out = render_template(default_prompt_template_content(), &ctx.to_template_vars()).unwrap();
    assert!(out.starts_with("# Task: \n\n## Objective\n\n"));
}

#[test]
fn context_sections_are_trimmed() {
    let ctx = TaskContext::from_task(&task("T", "## Objective\n\n   spaced out   \n\n## Context\n\tctx\n"));
    assert_eq!(ctx.objective, "spaced out");
    assert_eq!(ctx.context, "ctx");
}

#[test]
fn context_without_headings_has_empty_sections() {
    let ctx = TaskContext::from_task(&task("T", "Just prose.\n# Not a section\nMore prose.\n"));
    assert_eq!(ctx.objective, "");
    assert_eq!(ctx.acceptance_criteria, "");
    assert_eq!(ctx.context, "");
    assert_eq!(ctx.implementation_notes, "");
    assert_eq!(ctx.test_plan, "");
    assert_eq!(ctx.full_body, "Just prose.\n# Not a section\nMore prose.\n");
}
