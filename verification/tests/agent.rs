use burl::agent::{
    agent_command_args, available_agents, default_prompt_template_content, format_vars, resolve_agent,
    truncate_command, AgentDefaults, AgentProfile, AgentResult, AgentsConfig, BindingSource,
    DEFAULT_TIMEOUT_SECONDS,
};
use burl::strmap::{vars, StrMap};
use burl::task::{TaskFile, TaskFrontmatter};
use std::path::PathBuf;
use std::time::Duration;

#[test]
fn test_agent_result_is_success() {
    let result = AgentResult {
        exit_code: Some(0),
        stdout_path: PathBuf::from("/tmp/stdout.log"),
        stderr_path: PathBuf::from("/tmp/stderr.log"),
        duration: Duration::from_secs(1),
        timed_out: false,
        command: "echo test".to_string(),
    };
    assert!(result.is_success());

    let result = AgentResult {
        exit_code: Some(1),
        stdout_path: PathBuf::from("/tmp/stdout.log"),
        stderr_path: PathBuf::from("/tmp/stderr.log"),
        duration: Duration::from_secs(1),
        timed_out: false,
        command: "echo test".to_string(),
    };
    assert!(!result.is_success());

    let result = AgentResult {
        exit_code: Some(0),
        timed_out: true,
        stdout_path: PathBuf::from("/tmp/stdout.log"),
        stderr_path: PathBuf::from("/tmp/stderr.log"),
        duration: Duration::from_secs(1),
        command: "echo test".to_string(),
    };
    assert!(!result.is_success());
}

#[test]
fn test_truncate_command() {
    assert_eq!(truncate_command("short", 50), "short");
    assert_eq!(
        truncate_command("this is a very long command that exceeds the limit", 30),
        "this is a very long command..."
    );
}

fn profile(name: &str, command: &str, default: bool) -> AgentProfile {
    AgentProfile {
        name: name.to_string(),
        command: command.to_string(),
        default,
        ..Default::default()
    }
}

fn make_config_with_agents(agents: &[(&str, bool)]) -> AgentsConfig {
    let mut config = AgentsConfig::new();
    for (name, is_default) in agents {
        config.insert_agent(name, profile(name, &format!("echo {}", name), *is_default));
    }
    config
}

fn make_task(agent: Option<&str>) -> TaskFile {
    TaskFile {
        frontmatter: TaskFrontmatter {
            id: "TASK-001".to_string(),
            title: "Test Task".to_string(),
            agent: agent.map(|s| s.to_string()),
            ..Default::default()
        },
        body: String::new(),
    }
}

#[test]
fn test_parse_minimal_config() {
    let mut config = AgentsConfig::new();
    config.insert_agent("test-agent", profile("", "echo {task_id}", false));
    assert!(config.validate().is_ok());
    assert_eq!(config.agent_count(), 1);
    assert!(config.get("test-agent").is_some());
}

#[test]
fn test_parse_full_config() {
    let mut config = AgentsConfig::new();
    config.insert_agent(
        "code-agent",
        AgentProfile {
            name: "Code Agent CLI".to_string(),
            command: "code-agent -p {prompt_file}".to_string(),
            timeout_seconds: Some(900),
            environment: vec![("CLAUDE_CODE_AUTO_CONFIRM".to_string(), "true".to_string())],
            capabilities: vec!["coding".to_string(), "refactoring".to_string()],
            default: true,
            prompt_template: None,
        },
    );
    config.insert_agent(
        "custom",
        AgentProfile {
            name: "Custom Script".to_string(),
            command: "./scripts/agent.sh {task_id}".to_string(),
            timeout_seconds: Some(300),
            ..Default::default()
        },
    );
    config.defaults.timeout_seconds = 600;
    config.insert_prompt_template("default", "# Task: {title}\n{objective}\n");
    assert!(config.validate().is_ok());

    assert_eq!(config.agent_count(), 2);
    let main_agent = config.get("code-agent").unwrap();
    assert_eq!(main_agent.name, "Code Agent CLI");
    assert_eq!(main_agent.timeout_seconds, Some(900));
    assert!(main_agent.default);
    assert_eq!(main_agent.capabilities, vec!["coding", "refactoring"]);
    let custom = config.get("custom").unwrap();
    assert_eq!(custom.timeout_seconds, Some(300));
    assert!(!custom.default);
    assert_eq!(config.defaults.timeout_seconds, 600);
    assert!(config.get_prompt_template("default").is_some());
}

#[test]
fn test_default_agent() {
    let config = make_config_with_agents(&[("first", false), ("second", true)]);
    let (id, _) = config.default_agent().unwrap();
    assert_eq!(id, "second");
}

#[test]
fn test_no_default_agent() {
    let config = make_config_with_agents(&[("first", false), ("second", false)]);
    assert!(config.default_agent().is_none());
}

#[test]
fn test_multiple_defaults_fails() {
    let config = make_config_with_agents(&[("first", true), ("second", true)]);
    let result = config.validate();
    assert!(result.is_err());
    assert!(result.unwrap_err().message().contains("at most one agent"));
}

#[test]
fn test_empty_command_fails() {
    let mut config = AgentsConfig::new();
    config.insert_agent("test-agent", profile("", "", false));
    let result = config.validate();
    assert!(result.is_err());
    assert!(result.unwrap_err().message().contains("empty command"));
}

#[test]
fn test_zero_timeout_fails() {
    let mut config = AgentsConfig::new();
    config.insert_agent(
        "test-agent",
        AgentProfile { command: "echo test".to_string(), timeout_seconds: Some(0), ..Default::default() },
    );
    let result = config.validate();
    assert!(result.is_err());
    assert!(result.unwrap_err().message().contains("timeout_seconds of 0"));
}

#[test]
fn test_zero_default_timeout_fails() {
    let mut config = make_config_with_agents(&[("test-agent", false)]);
    config.defaults.timeout_seconds = 0;
    let result = config.validate();
    assert!(result.is_err());
    assert!(result
        .unwrap_err()
        .message()
        .contains("defaults.timeout_seconds must be greater than 0"));
}

#[test]
fn test_unknown_prompt_template_fails() {
    let mut config = AgentsConfig::new();
    config.insert_agent(
        "test-agent",
        AgentProfile {
            command: "echo test".to_string(),
            prompt_template: Some("nonexistent".to_string()),
            ..Default::default()
        },
    );
    let result = config.validate();
    assert!(result.is_err());
    assert!(result.unwrap_err().message().contains("unknown prompt_template"));
}

#[test]
fn test_effective_timeout() {
    let defaults = AgentDefaults { timeout_seconds: 600, ..Default::default() };

    let agent_with_timeout =
        AgentProfile { command: "echo test".to_string(), timeout_seconds: Some(300), ..Default::default() };
    assert_eq!(agent_with_timeout.effective_timeout(&defaults), 300);

    let agent_without_timeout =
        AgentProfile { command: "echo test".to_string(), timeout_seconds: None, ..Default::default() };
    assert_eq!(agent_without_timeout.effective_timeout(&defaults), 600);
}

#[test]
fn test_empty_config() {
    let config = AgentsConfig::new();
    assert!(config.validate().is_ok());
    assert!(!config.has_agents());
    assert_eq!(config.defaults.timeout_seconds, DEFAULT_TIMEOUT_SECONDS);
}

#[test]
fn test_iter_agents() {
    let config = make_config_with_agents(&[("beta", false), ("alpha", false)]);
    let ids: Vec<&str> = config.iter().iter().map(|(id, _)| id.as_str()).collect();
    assert_eq!(ids, vec!["alpha", "beta"]);
}

#[test]
fn insert_replaces_existing_agent() {
    let mut config = make_config_with_agents(&[("a", false)]);
    config.insert_agent("a", profile("again", "echo again", true));
    assert_eq!(config.agent_count(), 1);
    assert_eq!(config.get("a").unwrap().command, "echo again");
}

#[test]
fn test_resolve_explicit_agent() {
    let task = make_task(Some("my-agent"));
    let config = make_config_with_agents(&[("my-agent", false), ("other", true)]);
    let binding = resolve_agent(&task, &config).unwrap();
    assert_eq!(binding.agent_id, "my-agent");
    assert_eq!(binding.binding_source, BindingSource::Explicit);
}

#[test]
fn test_resolve_default_agent() {
    let task = make_task(None);
    let config = make_config_with_agents(&[("agent1", false), ("agent2", true)]);
    let binding = resolve_agent(&task, &config).unwrap();
    assert_eq!(binding.agent_id, "agent2");
    assert_eq!(binding.binding_source, BindingSource::Default);
}

#[test]
fn test_resolve_nonexistent_explicit_agent_error() {
    let task = make_task(Some("nonexistent"));
    let config = make_config_with_agents(&[("agent1", true)]);
    let result = resolve_agent(&task, &config);
    assert!(result.is_err());
    let err = result.unwrap_err().message();
    assert!(err.contains("nonexistent"));
    assert!(err.contains("not configured"));
    assert!(err.contains("agent1"));
}

#[test]
fn test_resolve_no_default_error() {
    let task = make_task(None);
    let config = make_config_with_agents(&[("agent1", false), ("agent2", false)]);
    let err = resolve_agent(&task, &config).unwrap_err().message();
    assert!(err.contains("no default agent"));
}

#[test]
fn test_resolve_no_agents_error() {
    let task = make_task(None);
    let config = AgentsConfig::new();
    let err = resolve_agent(&task, &config).unwrap_err().message();
    assert!(err.contains("no agents are configured"));
    assert!(err.contains("Example agents.yaml"));
    assert!(err.contains("command: \"code-agent -p {prompt_file}\""));
}

#[test]
fn test_explicit_overrides_default() {
    let task = make_task(Some("explicit-agent"));
    let config = make_config_with_agents(&[("explicit-agent", false), ("default-agent", true)]);
    let binding = resolve_agent(&task, &config).unwrap();
    assert_eq!(binding.agent_id, "explicit-agent");
    assert_eq!(binding.binding_source, BindingSource::Explicit);
}

#[test]
fn test_binding_has_profile() {
    let task = make_task(None);
    let config = make_config_with_agents(&[("test-agent", true)]);
    let binding = resolve_agent(&task, &config).unwrap();
    assert_eq!(binding.profile.name, "test-agent");
    assert_eq!(binding.profile.command, "echo test-agent");
}

#[test]
fn test_available_agents_formatting() {
    let config = make_config_with_agents(&[("beta", true), ("alpha", false)]);
    assert_eq!(available_agents(&config), "alpha, beta");
}

#[test]
fn test_available_agents_empty() {
    let config = AgentsConfig::new();
    assert_eq!(available_agents(&config), "(none)");
}

#[test]
fn variables_listed_sorted_once() {
    let v = vars(&[("task_id", "T"), ("branch", "b"), ("task_id", "U")]);
    assert_eq!(format_vars(&v), "branch, task_id");
    assert_eq!(format_vars(&StrMap::new()), "");
}

#[test]
fn agent_command_rendering() {
    let agent = profile("x", "code-agent -p '{prompt_file}' --task {task_id}", false);
    let v = vars(&[("prompt_file", "/tmp/my prompt.md"), ("task_id", "TASK-001")]);
    assert_eq!(
        agent_command_args(&agent, &v).unwrap(),
        vec!["code-agent", "-p", "/tmp/my prompt.md", "--task", "TASK-001"]
    );
    let missing = agent_command_args(&agent, &vars(&[("task_id", "TASK-001")])).unwrap_err();
    assert_eq!(
        missing.message(),
        "agent command template references undefined variable 'prompt_file'\nCommand: code-agent -p '{prompt_file}' --task {task_id}\nAvailable variables: task_id"
    );
    let unmatched = profile("x", "run {task_id", false);
    assert_eq!(
        agent_command_args(&unmatched, &v).unwrap_err().message(),
        "agent command template has unmatched '{' at position 4"
    );
    let quote = profile("x", "run 'oops", false);
    assert!(agent_command_args(&quote, &v).unwrap_err().message().starts_with(
        "failed to parse agent command 'run 'oops': missing closing quote"
    ));
    let blank = profile("x", "   ", false);
    assert_eq!(
        agent_command_args(&blank, &v).unwrap_err().message(),
        "agent command is empty after parsing: '   '"
    );
}

#[test]
fn builtin_prompt_template() {
    let t = default_prompt_template_content();
    assert!(t.starts_with("# Task: {title}"));
    assert!(t.contains("burl submit {task_id}"));
}

#[test]
fn test_agent_profile_effective_timeout() {
    let profile = AgentProfile {
        name: "test".to_string(),
        command: "echo".to_string(),
        timeout_seconds: Some(120),
        ..Default::default()
    };

    let config = AgentsConfig::new();
    assert_eq!(profile.effective_timeout(&config.defaults), 120);

    let profile_no_timeout = AgentProfile {
        name: "test".to_string(),
        command: "echo".to_string(),
        timeout_seconds: None,
        ..Default::default()
    };
    assert_eq!(profile_no_timeout.effective_timeout(&config.defaults), 600);
}

#[test]
fn prompt_template_falls_back_to_default() {
    let mut config = AgentsConfig::new();
    assert!(config.get_prompt_template("custom").is_none());
    config.insert_prompt_template("default", "# Default {title}");
    config.insert_prompt_template("review", "# Review {title}");
    assert_eq!(config.get_prompt_template("review"), Some("# Review {title}"));
    assert_eq!(config.get_prompt_template("custom"), Some("# Default {title}"));
}
