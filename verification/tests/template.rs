use burl::strmap::{vars, StrMap};
use burl::template::{render_template, TemplateError};

#[test]
fn test_simple_substitution() {
    let vars = vars(&[("name", "Alice"), ("greeting", "Hello")]);
    let result = render_template("{greeting}, {name}!", &vars).unwrap();
    assert_eq!(result, "Hello, Alice!");
}

#[test]
fn test_no_variables() {
    let vars = StrMap::new();
    let result = render_template("Just plain text", &vars).unwrap();
    assert_eq!(result, "Just plain text");
}

#[test]
fn test_empty_template() {
    let vars = StrMap::new();
    let result = render_template("", &vars).unwrap();
    assert_eq!(result, "");
}

#[test]
fn test_escape_braces() {
    let vars = StrMap::new();
    let result = render_template("Use {{var}} for variables", &vars).unwrap();
    assert_eq!(result, "Use {var} for variables");
}

#[test]
fn test_escape_closing_brace() {
    let vars = StrMap::new();
    let result = render_template("Example: a }} b", &vars).unwrap();
    assert_eq!(result, "Example: a } b");
}

#[test]
fn test_mixed_escapes_and_variables() {
    let vars = vars(&[("x", "value")]);
    let result = render_template("{{escaped}} and {x}", &vars).unwrap();
    assert_eq!(result, "{escaped} and value");
}

#[test]
fn test_undefined_variable_error() {
    let vars = StrMap::new();
    let result = render_template("Hello {name}", &vars);
    assert!(result.is_err());

    let err = result.unwrap_err();
    match err {
        TemplateError::UndefinedVariable { name, position } => {
            assert_eq!(name, "name");
            assert_eq!(position, 6);
        }
        _ => panic!("unexpected error type: {:?}", err),
    }
}

#[test]
fn test_unmatched_brace_error() {
    let vars = StrMap::new();
    let result = render_template("Hello {name", &vars);
    assert!(result.is_err());

    let err = result.unwrap_err();
    match err {
        TemplateError::UnmatchedBrace { position } => {
            assert_eq!(position, 6);
        }
        _ => panic!("unexpected error type: {:?}", err),
    }
}

#[test]
fn test_empty_variable_name_error() {
    let vars = StrMap::new();
    let result = render_template("Hello {}", &vars);
    assert!(result.is_err());

    let err = result.unwrap_err();
    match err {
        TemplateError::EmptyVariableName { position } => {
            assert_eq!(position, 6);
        }
        _ => panic!("unexpected error type: {:?}", err),
    }
}

#[test]
fn test_whitespace_in_variable_name() {
    let vars = vars(&[("name", "Alice")]);
    let result = render_template("Hello { name }!", &vars).unwrap();
    assert_eq!(result, "Hello Alice!");
}

#[test]
fn test_multiple_occurrences() {
    let vars = vars(&[("x", "X")]);
    let result = render_template("{x}-{x}-{x}", &vars).unwrap();
    assert_eq!(result, "X-X-X");
}

#[test]
fn test_adjacent_variables() {
    let vars = vars(&[("a", "A"), ("b", "B")]);
    let result = render_template("{a}{b}", &vars).unwrap();
    assert_eq!(result, "AB");
}

#[test]
fn test_lone_closing_brace() {
    let vars = StrMap::new();
    let result = render_template("a } b", &vars).unwrap();
    assert_eq!(result, "a } b");
}

#[test]
fn test_empty_value_substitution() {
    let vars = vars(&[("empty", "")]);
    let result = render_template("before{empty}after", &vars).unwrap();
    assert_eq!(result, "beforeafter");
}

#[test]
fn test_multiline_template() {
    let vars = vars(&[("title", "Test Task"), ("objective", "Do something")]);
    let template = "# {title}\n\n## Objective\n{objective}";
    let result = render_template(template, &vars).unwrap();
    assert_eq!(result, "# Test Task\n\n## Objective\nDo something");
}

#[test]
fn test_complex_values() {
    let vars = vars(&[
        ("code", "fn main() { println!(\"hello\"); }"),
        ("path", "/path/to/file.rs"),
    ]);
    let result = render_template("Code: {code}\nPath: {path}", &vars).unwrap();
    assert_eq!(
        result,
        "Code: fn main() { println!(\"hello\"); }\nPath: /path/to/file.rs"
    );
}

#[test]
fn test_vars_helper() {
    let vars = vars(&[("a", "1"), ("b", "2")]);
    assert_eq!(vars.get("a"), Some(&"1".to_string()));
    assert_eq!(vars.get("b"), Some(&"2".to_string()));
}

#[test]
fn test_error_display() {
    let err = TemplateError::UndefinedVariable {
        name: "foo".to_string(),
        position: 10,
    };
    assert_eq!(
        err.message(),
        "undefined variable 'foo' at position 10 in template"
    );

    let err = TemplateError::UnmatchedBrace { position: 5 };
    assert_eq!(err.message(), "unmatched '{' at position 5 in template");

    let err = TemplateError::EmptyVariableName { position: 3 };
    assert_eq!(
        err.message(),
        "empty variable name '{}' at position 3 in template"
    );
}

#[test]
fn test_variable_at_start() {
    let vars = vars(&[("x", "value")]);
    let result = render_template("{x} at start", &vars).unwrap();
    assert_eq!(result, "value at start");
}

#[test]
fn test_variable_at_end() {
    let vars = vars(&[("x", "value")]);
    let result = render_template("at end {x}", &vars).unwrap();
    assert_eq!(result, "at end value");
}

#[test]
fn test_only_variable() {
    let vars = vars(&[("x", "value")]);
    let result = render_template("{x}", &vars).unwrap();
    assert_eq!(result, "value");
}

#[test]
fn test_newlines_in_value() {
    let vars = vars(&[("multi", "line1\nline2\nline3")]);
    let result = render_template("Content:\n{multi}", &vars).unwrap();
    assert_eq!(result, "Content:\nline1\nline2\nline3");
}

#[test]
fn test_braces_in_value() {
    let vars = vars(&[("code", "if (x > 0) { return x; }")]);
    let result = render_template("Code: {code}", &vars).unwrap();
    assert_eq!(result, "Code: if (x > 0) { return x; }");
}

#[test]
fn test_unicode_in_template_and_values() {
    let vars = vars(&[("emoji", "🎉"), ("text", "日本語")]);
    let result = render_template("Hello {emoji} {text}!", &vars).unwrap();
    assert_eq!(result, "Hello 🎉 日本語!");
}

#[test]
fn unicode_before_brace_counts_bytes() {
    let vars = StrMap::new();
    let result = render_template("é {x", &vars);
    assert_eq!(result, Err(TemplateError::UnmatchedBrace { position: 3 }));
}

#[test]
fn later_value_overrides_earlier() {
    let vars = vars(&[("x", "first"), ("x", "second")]);
    assert_eq!(render_template("{x}", &vars).unwrap(), "second");
}
