use mote_server::agent::listed_skill_names;
use mote_server::config::{
    AgentConfig, Config, GlobalPermissionConfig, HistoryConfig, LoggingConfig, ModelConfig,
    PromptConfig, ProviderOllama, ProvidersConfig, ServerConfig, UiConfig,
};
use mote_server::json::Json;
use mote_server::llm::{ToolDef, ToolFunctionDef};
use mote_server::prompt::{
    build_system_reminder, load_file_or_default, skill_entry, skill_frontmatter,
    system_reminder_at, Environment, PromptAssembler, PromptSources, ReminderContext, SkillEntry,
    SkillMeta, ToolResultSummary,
};
use mote_server::strmap::StrMap;
use mote_server::tools::defs::UseSkillTool;

fn config(provider: &str, default_prompt: &str) -> Config {
    Config {
        model: ModelConfig {
            provider: provider.into(),
            model_id: "test-model".into(),
            temperature: 0.3f32.to_bits(),
            max_tokens: 4096,
        },
        providers: ProvidersConfig {
            deepseek: None,
            github: None,
            ollama: Some(ProviderOllama {
                base_url: "http://localhost:11434".into(),
                default_model: None,
                default_max_tokens: None,
            }),
        },
        history: HistoryConfig { dir: "history".into() },
        prompts: PromptConfig {
            default: default_prompt.into(),
            model_specific: None,
            instructions: Vec::new(),
        },
        ui: UiConfig::default(),
        agents: StrMap::new(),
        permissions: GlobalPermissionConfig::default(),
        server: ServerConfig::default(),
        logging: LoggingConfig { dir: "logs".into() },
    }
}

fn test_assembler() -> PromptAssembler {
    PromptAssembler::new(config("test", "/nonexistent/prompts/default.txt"))
}

fn environment() -> Environment {
    Environment { current_dir: Some("/here".into()), is_git: true, platform: "linux".into() }
}

fn no_files() -> PromptSources {
    PromptSources {
        environment: environment(),
        model_prompt: None,
        default_prompt: None,
        user_agents: None,
        skills: Vec::new(),
    }
}

fn skill(name: &str, description: &str) -> SkillEntry {
    SkillEntry { name: name.into(), description: description.into() }
}

#[test]
fn test_environment_block_contains_model() {
    let a = test_assembler();
    let block = a.build_env_block("gpt-4", &environment());
    assert!(block.contains("gpt-4"));
    assert!(block.contains("<env>"));
    assert!(block.contains("</env>"));
}

#[test]
fn test_workspace_agents_layer_is_included() {
    let a = test_assembler()
        .with_workspace_context(Some("/tmp/repo".into()), Some("# local rules".into()));
    let layers = a.assemble("test-model", &no_files());
    assert!(layers.iter().any(|l| l.contains("Instructions from: /tmp/repo/AGENTS.md")));
    assert!(layers.iter().any(|l| l.contains("# local rules")));
}

#[test]
fn test_global_agents_before_workspace_agents() {
    let a = test_assembler()
        .with_workspace_context(Some("/tmp/repo".into()), Some("# workspace rules".into()));
    let mut sources = no_files();
    sources.user_agents =
        Some(("/home/me/.config/mote/AGENTS.md".into(), "# global rules".into()));
    let layers = a.assemble("test-model", &sources);
    let w = layers
        .iter()
        .position(|l| l.contains("Instructions from: /tmp/repo/AGENTS.md"))
        .unwrap();
    let g = layers
        .iter()
        .position(|l| l.contains("Instructions from: /home/me/.config/mote/AGENTS.md"))
        .unwrap();
    assert!(g < w, "global AGENTS should appear before workspace AGENTS");
}

#[test]
fn test_assemble_missing_files_returns_just_env() {
    let a = test_assembler();
    let layers = a.assemble("test-model", &no_files());
    assert_eq!(layers.len(), 1);
    assert!(layers[0].contains("test-model"));
}

#[test]
fn test_load_file_or_default_empty_on_missing() {
    assert_eq!(load_file_or_default(&None, "fallback"), "fallback");
    assert_eq!(load_file_or_default(&Some("  here \n".into()), "fallback"), "here");
}

#[test]
fn test_assemble_uses_provider_specific_before_default() {
    let a = PromptAssembler::new(config("ollama", "/nonexistent/default.txt"));
    let layers = a.assemble("test-model", &no_files());
    assert!(layers.len() >= 1);
    assert!(layers[0].contains("test-model"));
    assert!(a.model_prompt_path("ollama").ends_with("ollama.txt"));
    assert_eq!(test_assembler().model_prompt_path("ollama"), "prompts/ollama.txt");
    assert_eq!(test_assembler().model_prompt_path("/etc/x"), "/etc/x.txt");
    let mut sources = no_files();
    sources.model_prompt = Some("OLLAMA PROMPT".into());
    sources.default_prompt = Some("DEFAULT PROMPT".into());
    let layers = a.assemble("test-model", &sources);
    assert!(layers.iter().any(|l| l == "OLLAMA PROMPT"));
    assert!(!layers.iter().any(|l| l.contains("DEFAULT PROMPT")));
}

#[test]
fn test_assemble_default_fallback_when_no_provider_prompt() {
    let a = PromptAssembler::new(config("ollama", "/tmp/prompts/default.txt"));
    let mut sources = no_files();
    sources.default_prompt = Some("DEFAULT PROMPT".into());
    let layers = a.assemble("m", &sources);
    assert!(layers.len() >= 2);
    assert!(layers.iter().any(|l| l.contains("DEFAULT PROMPT")));
}

#[test]
fn test_assemble_skills_included_when_dir_exists() {
    let a = test_assembler();
    let mut sources = no_files();
    let content = "---\nname: python-conventions\ndescription: Python coding rules\n---\nFollow PEP 8.\n";
    assert!(skill_frontmatter(content).is_some());
    let meta = SkillMeta {
        name: Some("python-conventions".into()),
        description: "Python coding rules".into(),
    };
    sources.skills = vec![
        skill_entry("python-conventions", Some(meta)),
        skill_entry("rust-rules", None),
    ];
    let layers = a.assemble("m", &sources);
    let index = layers.iter().find(|l| l.starts_with("Skills available:")).unwrap();
    assert!(index.contains("  python-conventions — Python coding rules\n"));
    assert!(index.contains("  rust-rules\n"));
}

#[test]
fn test_skill_yaml_frontmatter_parsing() {
    let content = r#"---
name: my-skill
description: Does something
---
Skill content here."#;
    let yaml: serde_yaml::Value =
        serde_yaml::from_str(&skill_frontmatter(content).unwrap()).unwrap();
    assert_eq!(yaml["name"].as_str(), Some("my-skill"));
    assert_eq!(yaml["description"].as_str(), Some("Does something"));
    assert_eq!(UseSkillTool::report("my-skill", content).output, "Skill content here.");
}

#[test]
fn test_skill_no_frontmatter_uses_folder_name() {
    let content = "Just some content.";
    assert!(skill_frontmatter(content).is_none());
    assert_eq!(skill_entry("my-folder-name", None).name, "my-folder-name");
}

#[test]
fn test_build_reminder_first_turn() {
    let tool_defs = vec![];
    let ctx = ReminderContext {
        step: 1,
        max_steps: 10,
        working_directory: "/tmp/test".into(),
        tool_defs: &tool_defs,
        last_turn_results: vec![],
        last_user_message: None,
    };
    let reminder = build_system_reminder(&ctx);
    assert!(reminder.contains("<system-reminder>"));
    assert!(reminder.contains("</system-reminder>"));
    assert!(reminder.contains("Turn 1 of 10"));
    assert!(reminder.contains("/tmp/test"));
    assert!(reminder.contains("<reminder>"));
    assert!(!reminder.contains("<last_turn_results>"));
}

#[test]
fn test_build_reminder_with_tool_results() {
    let tool_defs = vec![];
    let ctx = ReminderContext {
        step: 2,
        max_steps: 10,
        working_directory: "/home".into(),
        tool_defs: &tool_defs,
        last_turn_results: vec![
            ToolResultSummary {
                tool_name: "read".into(),
                success: true,
                summary: "file contents...".into(),
            },
            ToolResultSummary {
                tool_name: "bash".into(),
                success: false,
                summary: "command not found".into(),
            },
        ],
        last_user_message: Some("find the config file".into()),
    };
    let reminder = build_system_reminder(&ctx);
    assert!(reminder.contains("Turn 2 of 10"));
    assert!(reminder.contains("<last_turn_results>"));
    assert!(reminder.contains("read(\"file contents...\") → Success"));
    assert!(reminder.contains("bash(\"command not found\") → Failed"));
    assert!(reminder.contains("find the config file"));
}

#[test]
fn test_build_reminder_shows_tools_when_provided() {
    let tool_defs = vec![ToolDef {
        def_type: "function".into(),
        function: ToolFunctionDef {
            name: "read".into(),
            description: "Read a file".into(),
            parameters: Json::Object(Vec::new()),
        },
    }];
    let ctx = ReminderContext {
        step: 1,
        max_steps: 5,
        working_directory: "/wd".into(),
        tool_defs: &tool_defs,
        last_turn_results: vec![],
        last_user_message: None,
    };
    let reminder = build_system_reminder(&ctx);
    assert!(reminder.contains("Available tools: read"));
    assert!(system_reminder_at(&ctx, "NOW").contains("NOW"));
}

#[test]
fn the_environment_is_described() {
    let a = test_assembler().with_workspace_context(Some("/work".into()), None);
    let block = a.env_block_at("m1", &environment(), "Thu Jan 01 1970");
    assert!(block.contains("  Working directory: /work\n"));
    assert!(block.contains("  Is directory a git repo: yes\n"));
    assert!(block.contains("  Platform: linux\n"));
    assert!(block.contains("  Today's date: Thu Jan 01 1970\n"));
    let now = a.build_env_block("m1", &environment());
    assert!(!now.contains("%a"));
}

#[test]
fn agents_have_prompts_of_their_own() {
    let mut agent = AgentConfig::default();
    agent.default = Some("own.txt".into());
    agent.instructions = Some("Be brief.".into());
    let a = PromptAssembler::for_agent(&config("test", "default.txt"), Some(&agent));
    assert_eq!(a.prompts.default, "own.txt");
    assert_eq!(a.agent_instructions.as_deref(), Some("Be brief."));
    let layers = a.assemble_at("m", &no_files(), "today");
    assert!(layers.iter().any(|l| l.contains("Be brief.")));
}

#[test]
fn described_skills_are_loaded() {
    let a = test_assembler();
    let mut sources = no_files();
    sources.skills = vec![skill("alpha", "first"), skill("bare", ""), skill("beta", "second")];
    let layers = a.assemble_at("m", &sources, "today");
    assert_eq!(listed_skill_names(&layers), vec!["alpha".to_string(), "beta".to_string()]);
}
