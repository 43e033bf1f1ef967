use axon::config::{
    panel_status_line, status_line, BackendConfig, Config, Environment, ToolApproval,
};
use axon::config_file::parse_config_file;
use axon::tools::{
    answer, decide, edit_confirmation, shell_report, tool_args, tool_schemas, ToolAction, ToolArgs,
    ToolError, ToolExecutor, ToolRequest,
};

fn no_args() -> ToolArgs {
    ToolArgs { path: None, content: None, command: None }
}

#[test]
fn unknown_tool_returns_error() {
    let executor = ToolExecutor::new(".".into());
    let r = executor.plan("nonexistent", no_args());
    assert!(r.is_err());
    assert_eq!(r.err().unwrap().message(), "unknown tool: nonexistent");
}

#[test]
fn tool_schemas_has_three_tools_in_order() {
    let schemas = tool_schemas();
    assert_eq!(schemas.len(), 3);
    let names: Vec<&str> = schemas.iter().map(|t| t.name).collect();
    assert_eq!(names, ["read_file", "edit_file", "shell"]);
}

#[test]
fn plans_check_their_arguments() {
    let ex = ToolExecutor::new("/work".into());
    assert_eq!(ex.working_dir(), "/work");
    assert!(matches!(ex.plan("read_file", no_args()), Err(ToolError::MissingPath)));
    let args = ToolArgs { path: Some("a.txt".into()), content: None, command: None };
    assert!(matches!(ex.plan("read_file", args), Ok(ToolRequest::ReadFile { path }) if path == "a.txt"));
    let args = ToolArgs { path: Some("a.txt".into()), content: None, command: None };
    assert!(matches!(ex.plan("edit_file", args), Err(ToolError::MissingContent)));
    let args = ToolArgs { path: None, content: Some("x".into()), command: None };
    assert!(matches!(ex.plan("edit_file", args), Err(ToolError::MissingPath)));
    let args = ToolArgs { path: Some("o.txt".into()), content: Some("written".into()), command: None };
    assert!(matches!(ex.plan("edit_file", args),
        Ok(ToolRequest::EditFile { path, content }) if path == "o.txt" && content == "written"));
    assert!(matches!(ex.plan("shell", no_args()), Err(ToolError::MissingCommand)));
    let args = ToolArgs { path: None, content: None, command: Some("echo hi".into()) };
    assert!(matches!(ex.plan("shell", args), Ok(ToolRequest::Shell { command }) if command == "echo hi"));
    assert_eq!(ToolError::MissingPath.message(), "missing path");
    assert_eq!(ToolError::MissingContent.message(), "missing content");
    assert_eq!(ToolError::MissingCommand.message(), "missing command");
}

#[test]
fn edit_confirmation_names_path() {
    assert_eq!(edit_confirmation("out.txt"), "wrote out.txt");
}

#[test]
fn shell_report_joins_outputs() {
    assert_eq!(shell_report("axon-test\n".into(), "err\n"), "axon-test\nerr\n");
}

#[test]
fn approval_names() {
    assert_eq!(ToolApproval::Allow.as_str(), "allow");
    assert_eq!(ToolApproval::Deny.as_str(), "deny");
    assert_eq!(ToolApproval::Ask.as_str(), "ask");
}

#[test]
fn backend_defaults() {
    let b = BackendConfig::from_settings(None, None, None);
    assert_eq!(b.base_url, "http://localhost:8080/v1");
    assert_eq!(b.api_key, "x");
    assert_eq!(b.model, "");
    let b = BackendConfig::from_settings(Some("u".into()), Some("k".into()), Some("m".into()));
    assert_eq!((b.base_url.as_str(), b.api_key.as_str(), b.model.as_str()), ("u", "k", "m"));
}

#[test]
fn planning_backend_none_when_env_unset() {
    let config = Config::load(no_env(), parse_config_file(""));
    assert!(config.planning_backend.is_none());
}

#[test]
fn planning_backend_some_when_env_set() {
    let mut env = no_env();
    env.planning_base_url = Some("http://localhost:9090/v1".into());
    env.planning_model = Some("llama-3-8b".into());
    let config = Config::load(env, parse_config_file(""));
    let planning = config.planning_backend.expect("should be Some");
    assert_eq!(planning.base_url, "http://localhost:9090/v1");
    assert_eq!(planning.model, "llama-3-8b");
    assert_eq!(planning.api_key, "x");
}

#[test]
fn planning_key_falls_back_to_main_key() {
    let p = BackendConfig::from_planning_settings(Some("u".into()), None, Some("k".into()), None)
        .unwrap();
    assert_eq!(p.api_key, "k");
    let p = BackendConfig::from_planning_settings(Some("u".into()), Some("pk".into()), Some("k".into()), None)
        .unwrap();
    assert_eq!(p.api_key, "pk");
}

#[test]
fn status_lines() {
    let c = Config::new(BackendConfig::from_settings(None, None, None), None);
    assert_eq!(status_line(&c), "  http://localhost:8080/v1  │  (no model)  │  tools: ask");
    assert_eq!(panel_status_line(&c), "  http://localhost:8080/v1  │  (no model set)  │  tools: ask");
}

fn shell(command: &str) -> ToolRequest {
    ToolRequest::Shell { command: command.into() }
}

#[test]
fn tool_args_reads_string_fields() {
    let a = tool_args(r#"{"path":"src/a.rs","content":"fn main() {}","command":7}"#);
    assert_eq!(a.path.as_deref(), Some("src/a.rs"));
    assert_eq!(a.content.as_deref(), Some("fn main() {}"));
    assert_eq!(a.command, None);
    let a = tool_args("not json");
    assert!(a.path.is_none() && a.content.is_none() && a.command.is_none());
}

#[test]
fn plan_call_reads_json_arguments() {
    let ex = ToolExecutor::new(".".into());
    assert!(matches!(ex.plan_call("shell", r#"{"command":"ls"}"#),
        Ok(ToolRequest::Shell { command }) if command == "ls"));
    assert!(matches!(ex.plan_call("read_file", "{}"), Err(ToolError::MissingPath)));
}

#[test]
fn deny_blocks_other_tools() {
    assert!(matches!(decide(ToolApproval::Deny, shell("touch x")), ToolAction::Refuse(ToolError::Denied)));
    let read = ToolRequest::ReadFile { path: "a".into() };
    assert!(matches!(decide(ToolApproval::Deny, read), ToolAction::Refuse(ToolError::Denied)));
    assert_eq!(ToolError::Denied.message(), "denied: tool_approval is deny");
}

#[test]
fn ask_prompts_and_allow_runs() {
    assert!(matches!(decide(ToolApproval::Ask, shell("ls")),
        ToolAction::AskFirst(ToolRequest::Shell { command }) if command == "ls"));
    assert!(matches!(decide(ToolApproval::Allow, shell("ls")),
        ToolAction::Run(ToolRequest::Shell { command }) if command == "ls"));
}

#[test]
fn every_edit_awaits_approval() {
    for mode in [ToolApproval::Allow, ToolApproval::Ask, ToolApproval::Deny] {
        let edit = ToolRequest::EditFile { path: "p.txt".into(), content: "c".into() };
        assert!(matches!(decide(mode, edit),
            ToolAction::AwaitApproval { path, after } if path == "p.txt" && after == "c"));
    }
}

#[test]
fn answers_run_or_refuse() {
    assert!(matches!(answer(shell("ls"), true), Ok(ToolRequest::Shell { command }) if command == "ls"));
    let r = answer(ToolRequest::EditFile { path: "p".into(), content: "c".into() }, false);
    assert!(matches!(r, Err(ToolError::Rejected)));
    assert_eq!(ToolError::Rejected.message(), "rejected by the user");
}

#[test]
fn next_action_plans_then_decides() {
    let ex = ToolExecutor::new(".".into());
    assert!(matches!(ex.next_action(ToolApproval::Deny, "shell", r#"{"command":"touch x"}"#),
        ToolAction::Refuse(ToolError::Denied)));
    assert!(matches!(ex.next_action(ToolApproval::Allow, "shell", "{}"),
        ToolAction::Refuse(ToolError::MissingCommand)));
    assert!(matches!(ex.next_action(ToolApproval::Allow, "edit_file", r#"{"path":"p","content":"c"}"#),
        ToolAction::AwaitApproval { path, after } if path == "p" && after == "c"));
}

fn no_env() -> Environment {
    Environment {
        base_url: None,
        api_key: None,
        model: None,
        planning_base_url: None,
        planning_api_key: None,
        planning_model: None,
    }
}

const SAMPLE: &str = "[backend]\nbase_url = \"http://localhost:11434/v1\"   # any OpenAI-compatible endpoint\nmodel    = \"qwen3:30b-a3b\"\n\ntool_approval = \"deny\"   # allow | ask | deny\n";

#[test]
fn config_file_sets_backend_and_approval() {
    let f = parse_config_file(SAMPLE);
    assert_eq!(f.base_url.as_deref(), Some("http://localhost:11434/v1"));
    assert_eq!(f.model.as_deref(), Some("qwen3:30b-a3b"));
    assert_eq!(f.tool_approval, Some(ToolApproval::Deny));
    let c = Config::load(no_env(), f);
    assert_eq!(c.backend.base_url, "http://localhost:11434/v1");
    assert_eq!(c.backend.model, "qwen3:30b-a3b");
    assert_eq!(c.backend.api_key, "x");
    assert_eq!(c.tool_approval, ToolApproval::Deny);
    assert!(c.planning_backend.is_none());
}

#[test]
fn config_file_ignores_what_it_does_not_know() {
    let f = parse_config_file("# comment\nmodel = \"top\"\n[other]\nbase_url = \"u\"\ntool_approval = \"deny\"\n[backend]\ntool_approval = \"never\"\nmodel = unquoted\n");
    assert!(f.base_url.is_none() && f.model.is_none() && f.tool_approval.is_none());
    let f = parse_config_file("tool_approval = \"allow\"\r\n");
    assert_eq!(f.tool_approval, Some(ToolApproval::Allow));
}

#[test]
fn settings_file_wins_over_environment() {
    let mut env = no_env();
    env.base_url = Some("http://env/v1".into());
    env.model = Some("env-model".into());
    env.api_key = Some("k".into());
    env.planning_base_url = Some("http://plan/v1".into());
    let c = Config::load(env, parse_config_file("[backend]\nmodel = \"file-model\"\n"));
    assert_eq!(c.backend.base_url, "http://env/v1");
    assert_eq!(c.backend.model, "file-model");
    assert_eq!(c.tool_approval, ToolApproval::Ask);
    let p = c.planning_backend.unwrap();
    assert_eq!((p.base_url.as_str(), p.api_key.as_str()), ("http://plan/v1", "k"));
    let c = Config::load(no_env(), parse_config_file(""));
    assert_eq!(c.backend.base_url, "http://localhost:8080/v1");
}
