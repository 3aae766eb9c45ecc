use mote_server::agent::AgentEvent;
use mote_server::config::{
    AgentConfig, Config, GlobalPermissionConfig, HistoryConfig, LoggingConfig, ModelConfig,
    Permission, PromptConfig, ProvidersConfig, ServerConfig, UiConfig,
};
use mote_server::strmap::StrMap;
use mote_server::tools::defs::build_subagent_tools;
use mote_server::tools::subagent::{
    check_call, new_subagent_id, setup, subagent_id_at, SubagentRun, MAX_DEPTH,
};

fn agent(mode: &str) -> AgentConfig {
    let mut a = AgentConfig::default();
    a.mode = mode.into();
    a
}

fn config() -> Config {
    let mut permissions = GlobalPermissionConfig::default();
    permissions.tools.insert("write".into(), Permission::Deny);
    Config {
        model: ModelConfig {
            provider: "ollama".into(),
            model_id: "m".into(),
            temperature: 0.3f32.to_bits(),
            max_tokens: 4096,
        },
        providers: ProvidersConfig { deepseek: None, github: None, ollama: None },
        history: HistoryConfig { dir: "history".into() },
        prompts: PromptConfig::default(),
        ui: UiConfig::default(),
        agents: StrMap::new(),
        permissions,
        server: ServerConfig::default(),
        logging: LoggingConfig { dir: "logs".into() },
    }
}

#[test]
fn only_callable_agents_are_called() {
    let mut agents = StrMap::new();
    agents.insert("main".to_string(), agent("primary"));
    agents.insert("helper".to_string(), agent("subagent"));
    agents.insert("both".to_string(), agent("all"));
    assert!(check_call(0, MAX_DEPTH, &agents, "helper").is_ok());
    assert!(check_call(2, MAX_DEPTH, &agents, "both").is_ok());
    assert_eq!(
        check_call(0, MAX_DEPTH, &agents, "main").unwrap_err(),
        "Agent 'main' is not available as a subagent"
    );
    assert_eq!(
        check_call(0, MAX_DEPTH, &agents, "nobody").unwrap_err(),
        "Unknown sub-agent: 'nobody'"
    );
    assert_eq!(
        check_call(3, MAX_DEPTH, &agents, "helper").unwrap_err(),
        "Sub-agent recursion limit reached (max 3 levels)"
    );
}

#[test]
fn subagents_are_set_up_without_a_user() {
    let mut helper = agent("subagent");
    helper.model = Some("glm/glm-5.2".into());
    helper.max_tokens = Some(99);
    let s = setup(&config(), Some(&helper), &build_subagent_tools("/ws"));
    assert_eq!(s.provider, "glm");
    assert_eq!(s.options.model_id, "glm-5.2");
    assert_eq!(s.options.max_tokens, 99);
    assert_eq!(s.permissions.get("bash"), Some(&Permission::Allow));
    assert_eq!(s.permissions.get("write"), Some(&Permission::Deny));
    let offered: Vec<String> = s.options.tools.iter().map(|t| t.function.name.clone()).collect();
    assert!(offered.contains(&"bash".to_string()));
    assert!(!offered.contains(&"write".to_string()));
}

#[test]
fn runs_are_collected() {
    let (mut run, started) = SubagentRun::begin("sub_1".into(), "helper");
    assert!(matches!(started, AgentEvent::SubagentStarted { ref id, .. } if id == "sub_1"));
    let told = run.event(Ok(AgentEvent::TextDelta("par".into()))).unwrap();
    assert!(matches!(told, AgentEvent::SubagentTextDelta { ref data, .. } if data == "par"));
    assert!(run.event(Ok(AgentEvent::SkillSelected { name: "x".into() })).is_none());
    run.event(Ok(AgentEvent::ToolStarted { id: "c".into(), name: "read".into() }));
    let completed = AgentEvent::ToolCompleted {
        id: "c".into(),
        name: "read".into(),
        result: "y".repeat(101),
        changes: Vec::new(),
        rollback_entries: Vec::new(),
    };
    run.event(Ok(completed));
    run.event(Ok(AgentEvent::ToolFailed { id: "d".into(), error: "no".into() }));
    assert!(!run.ended);
    let done = AgentEvent::Done {
        content: "answer".into(),
        tokens_input: 1,
        tokens_output: 2,
        history: Vec::new(),
    };
    assert!(run.event(Ok(done)).is_none());
    assert!(run.ended);
    let (result, ended) = run.conclude();
    assert_eq!(
        result,
        format!("[Tools used:\n  [Tool: read] → {}... → FAILED: no]\nanswer", "y".repeat(97))
    );
    assert!(matches!(ended, AgentEvent::SubagentDone { ref content, .. } if content == "answer"));
}

#[test]
fn empty_and_broken_runs_are_reported() {
    let (run, _) = SubagentRun::begin("sub_1".into(), "helper");
    assert_eq!(run.conclude().0, "[Sub-agent 'helper' completed]");
    assert_eq!(run.timed_out(), "Sub-agent 'helper' timed out after 300s");
    let (mut run, _) = SubagentRun::begin("sub_1".into(), "helper");
    run.event(Err("boom".into()));
    assert!(run.ended);
    assert_eq!(run.conclude().0, "[Sub-agent error: boom]");
}

#[test]
fn subagent_identifiers_are_dated() {
    assert_eq!(subagent_id_at("20250525233658084098"), "sub_20250525233658084098");
    let id = new_subagent_id();
    assert!(id.starts_with("sub_"));
    assert_eq!(id.len(), 24);
    assert!(id[4..].chars().all(|c| c.is_ascii_digit()));
}
