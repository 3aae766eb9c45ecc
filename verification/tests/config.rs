use mote_server::auth::{Auth, ProviderAuth};
use mote_server::config::{
    add_file_agent, all_agents, allow_remembered, build_permission_map, config_location,
    unattended_permissions, AgentConfig, Config, GlobalPermissionConfig, HistoryConfig,
    LoggingConfig, ModelConfig, Permission, PromptConfig, ProviderDeepSeek, ProviderGitHub,
    ProviderOllama, ProvidersConfig, ServerConfig, UiConfig, DEFAULT_DEEPSEEK_BASE_URL,
    DEFAULT_GITHUB_BASE_URL, DEFAULT_MAX_TOKENS, DEFAULT_OLLAMA_BASE_URL,
};
use mote_server::strmap::StrMap;

fn permission(name: &str) -> Permission {
    match name {
        "allow" => Permission::Allow,
        "ask" => Permission::Ask,
        "deny" => Permission::Deny,
        other => panic!("no permission: {}", other),
    }
}

fn text(table: &toml::Table, key: &str) -> Option<String> {
    table.get(key).and_then(|v| v.as_str()).map(|s| s.to_string())
}

fn number(table: &toml::Table, key: &str) -> Option<u32> {
    table.get(key).and_then(|v| v.as_integer()).map(|n| n as u32)
}

fn temperature(table: &toml::Table) -> Option<u32> {
    table.get("temperature").and_then(|v| v.as_float()).map(|t| (t as f32).to_bits())
}

fn section(table: &toml::Table, key: &str) -> toml::Table {
    table.get(key).and_then(|v| v.as_table()).cloned().unwrap_or_default()
}

fn permission_table(table: &toml::Table) -> StrMap<Permission> {
    let mut map = StrMap::new();
    for (name, value) in table {
        if name != "default" {
            map.insert(name.clone(), permission(value.as_str().unwrap()));
        }
    }
    map
}

fn agent_from(source: &toml::Table) -> AgentConfig {
    let mut agent = AgentConfig::default();
    agent.model = text(source, "model");
    agent.temperature = temperature(source);
    agent.max_tokens = number(source, "max_tokens");
    agent.permissions = permission_table(&section(source, "permissions"));
    if let Some(mode) = text(source, "mode") {
        agent.mode = mode;
    }
    agent
}

fn agent_of(source: &str) -> AgentConfig {
    agent_from(&toml::from_str::<toml::Table>(source).unwrap())
}

fn config_of(source: &str) -> Config {
    let root = toml::from_str::<toml::Table>(source).unwrap();
    let model = section(&root, "model");
    let providers = section(&root, "providers");
    let mut agents = StrMap::new();
    for (name, agent) in &section(&root, "agents") {
        agents.insert(name.clone(), agent_from(agent.as_table().unwrap()));
    }
    let permissions = section(&root, "permissions");
    let mut ui = UiConfig::default();
    let colours = section(&root, "ui");
    if let Some(c) = text(&colours, "input_accent") {
        ui.input_accent = c;
    }
    if let Some(c) = text(&colours, "user_accent") {
        ui.user_accent = c;
    }
    let mut server = ServerConfig::default();
    let listening = section(&root, "server");
    if let Some(port) = number(&listening, "port") {
        server.port = port as u16;
    }
    if let Some(steps) = number(&listening, "max_steps") {
        server.max_steps = steps as usize;
    }
    Config {
        model: ModelConfig {
            provider: text(&model, "provider").unwrap(),
            model_id: text(&model, "model_id").unwrap(),
            temperature: temperature(&model).unwrap_or(0.3f32.to_bits()),
            max_tokens: number(&model, "max_tokens").unwrap_or(DEFAULT_MAX_TOKENS),
        },
        providers: ProvidersConfig {
            deepseek: providers.get("deepseek").and_then(|p| p.as_table()).map(|p| {
                ProviderDeepSeek {
                    api_key: text(p, "api_key"),
                    base_url: text(p, "base_url").unwrap_or(DEFAULT_DEEPSEEK_BASE_URL.into()),
                    default_model: text(p, "default_model"),
                    default_max_tokens: number(p, "default_max_tokens"),
                }
            }),
            github: providers.get("github").and_then(|p| p.as_table()).map(|p| ProviderGitHub {
                base_url: text(p, "base_url").unwrap_or(DEFAULT_GITHUB_BASE_URL.into()),
                default_model: text(p, "default_model"),
                default_max_tokens: number(p, "default_max_tokens"),
            }),
            ollama: providers.get("ollama").and_then(|p| p.as_table()).map(|p| ProviderOllama {
                base_url: text(p, "base_url").unwrap_or(DEFAULT_OLLAMA_BASE_URL.into()),
                default_model: text(p, "default_model"),
                default_max_tokens: number(p, "default_max_tokens"),
            }),
        },
        history: HistoryConfig {
            dir: text(&section(&root, "history"), "dir")
                .unwrap_or(config_location(Some("/home/me"), "history")),
        },
        prompts: PromptConfig::default(),
        ui,
        agents,
        permissions: GlobalPermissionConfig {
            default: text(&permissions, "default").map_or(Permission::Ask, |p| permission(&p)),
            tools: permission_table(&permissions),
        },
        server,
        logging: LoggingConfig {
            dir: text(&section(&root, "logging"), "dir")
                .unwrap_or(config_location(Some("/home/me"), "logs")),
        },
    }
}

fn env(entries: &[(&str, &str)]) -> StrMap<String> {
    let mut map = StrMap::new();
    for (k, v) in entries {
        map.insert(k.to_string(), v.to_string());
    }
    map
}

const OLLAMA: &str = r#"
[model]
provider = "ollama"
model_id = "test"
[providers.ollama]
base_url = "http://localhost:11434"
"#;

#[test]
fn test_env_var_expansion() {
    let env = env(&[("TEST_API_KEY", "sk-test123")]);
    assert_eq!(Config::expand("${TEST_API_KEY}", &env), "sk-test123");
}

#[test]
fn test_env_var_dollar_brace() {
    let env = env(&[("MY_VAR", "value")]);
    assert_eq!(Config::expand("${MY_VAR}", &env), "value");
}

#[test]
fn test_env_var_unset_keeps_literal() {
    assert_eq!(
        Config::expand("prefix_${UNSET_VAR_XYZ}_suffix", &env(&[])),
        "prefix_${UNSET_VAR_XYZ}_suffix"
    );
}

#[test]
fn test_env_var_no_false_positive() {
    assert_eq!(Config::expand("costs $5.00", &env(&[])), "costs $5.00");
}

#[test]
fn test_config_parse() {
    let config = config_of(
        r#"
[model]
provider = "deepseek"
model_id = "deepseek-chat"
temperature = 0.5

[providers.deepseek]
api_key = "sk-test"
base_url = "https://api.deepseek.com/v1"
default_max_tokens = 8192

[history]
dir = "history"

[prompts]
default = "prompts/default.txt"
instructions = ["prompts/instructions/"]
"#,
    );
    assert_eq!(config.model.provider, "deepseek");
    assert_eq!(config.model.max_tokens, 4096);
    assert_eq!(config.providers.deepseek.as_ref().unwrap().default_max_tokens, Some(8192));
}

#[test]
fn test_effective_max_tokens_agent() {
    let config = config_of(
        r#"
[model]
provider = "ollama"
model_id = "test"
[providers.ollama]
base_url = "http://localhost:11434"
[agents.myagent]
max_tokens = 2048
"#,
    );
    assert_eq!(config.effective_max_tokens(Some(2048), "ollama"), 2048);
    assert_eq!(config.effective_max_tokens(None, "ollama"), 4096);
}

#[test]
fn test_effective_max_tokens_provider_default() {
    let config = config_of(
        r#"
[model]
provider = "deepseek"
model_id = "test"
[providers.deepseek]
api_key = "x"
default_max_tokens = 16384
"#,
    );
    assert_eq!(config.effective_max_tokens(None, "deepseek"), 16384);
}

#[test]
fn every_configured_provider_limits_answers() {
    let config = config_of(
        r#"
[model]
provider = "github"
model_id = "test"
max_tokens = 100
[providers.github]
default_max_tokens = 5
[providers.ollama]
base_url = "http://localhost:11434"
default_max_tokens = 7
"#,
    );
    assert_eq!(config.effective_max_tokens(None, "github"), 5);
    assert_eq!(config.effective_max_tokens(Some(3), "github"), 3);
    assert_eq!(config.effective_max_tokens(None, "ollama"), 7);
    assert_eq!(config.effective_max_tokens(None, "deepseek"), 100);
    assert_eq!(config.effective_max_tokens(None, "kimi"), 100);
}

#[test]
fn test_accent_color_default() {
    let config = config_of(OLLAMA);
    assert_eq!(config.input_accent(), "cyan");
    assert_eq!(config.user_accent(), "cyan");
}

#[test]
fn test_accent_color_custom() {
    let config = config_of(
        r#"
[model]
provider = "ollama"
model_id = "t"
[providers.ollama]
base_url = "http://localhost:11434"
[ui]
input_accent = "green"
user_accent = "blue"
"#,
    );
    assert_eq!(config.input_accent(), "green");
    assert_eq!(config.user_accent(), "blue");
}

#[test]
fn test_deepseek_api_key_with_expansion() {
    let config = config_of(
        r#"
[model]
provider = "deepseek"
model_id = "x"
[providers.deepseek]
api_key = "${DS_KEY}"
base_url = "https://api.deepseek.com/v1"
"#,
    );
    let auth = Auth::default();
    assert_eq!(
        config.resolve_deepseek_api_key(&auth, &env(&[("DS_KEY", "sk-real-key")])).unwrap(),
        "sk-real-key"
    );
}

#[test]
fn test_all_agents_merges_and_overrides() {
    let mut config_agents = StrMap::new();
    config_agents.insert(
        "code".into(),
        AgentConfig {
            model: Some("ollama/qwen".into()),
            model_specific: None,
            default: None,
            temperature: Some(0.3f32.to_bits()),
            max_tokens: Some(4096),
            permissions: StrMap::new(),
            instructions: None,
            mode: "primary".into(),
        },
    );
    let mut file_agents = StrMap::new();
    file_agents.insert("code".into(), agent_of(r#"model = "ollama/other""#));
    file_agents.insert("plan".into(), agent_of(r#"model = "ollama/deepseek""#));
    let merged = all_agents(file_agents, config_agents);
    assert!(merged.contains_key("code"), "config agent should be present");
    assert_eq!(merged.get("code").unwrap().model.as_deref(), Some("ollama/qwen"));
    assert_eq!(merged.get("plan").unwrap().model.as_deref(), Some("ollama/deepseek"));
}

#[test]
fn test_resolve_permission_agent_override() {
    let config = config_of(
        r#"
[model]
provider = "deepseek"
model_id = "x"
[providers.deepseek]
api_key = "placeholder"
base_url = "https://api.deepseek.com/v1"
[permissions]
default = "deny"
bash = "ask"
[agents.code]
permissions = { bash = "allow" }
"#,
    );
    assert_eq!(config.resolve_permission("code", "bash"), Permission::Allow);
    assert_eq!(config.resolve_permission("nonexistent", "bash"), Permission::Ask);
    assert_eq!(config.resolve_permission("nonexistent", "write"), Permission::Deny);
}

#[test]
fn test_permissions_default_to_ask_when_omitted() {
    let config = config_of(
        r#"
[model]
provider = "ollama"
model_id = "x"
[providers.ollama]
base_url = "http://localhost:11434"
"#,
    );
    assert_eq!(config.permissions.default, Permission::Ask);
    assert_eq!(config.resolve_permission("missing-agent", "bash"), Permission::Ask);
}

#[test]
fn test_load_file_agents_reads_toml_files() {
    let mut agents = StrMap::new();
    add_file_agent(
        &mut agents,
        "review.toml",
        agent_of("model = \"ollama/qwen\"\ntemperature = 0.2\nmax_tokens = 2048\n"),
    );
    add_file_agent(
        &mut agents,
        "plan.toml",
        agent_of("model = \"ollama/deepseek\"\npermissions = { bash = \"deny\" }\n"),
    );
    let cfg = agents.get("review").unwrap();
    assert_eq!(cfg.model.as_deref(), Some("ollama/qwen"));
    assert_eq!(cfg.temperature.map(f32::from_bits), Some(0.2));
    let cfg2 = agents.get("plan").unwrap();
    assert_eq!(cfg2.model.as_deref(), Some("ollama/deepseek"));
    assert_eq!(cfg2.permissions.get("bash").copied(), Some(Permission::Deny));
}

#[test]
fn test_all_agents_empty_when_no_config_agents() {
    let merged = all_agents(StrMap::new(), StrMap::new());
    assert!(merged.is_empty());
    let mut file_agents = StrMap::new();
    add_file_agent(&mut file_agents, "review.toml", AgentConfig::default());
    assert!(!all_agents(file_agents, StrMap::new()).is_empty());
}

#[test]
fn test_agent_mode_default_is_primary() {
    let cfg = agent_of("");
    assert_eq!(cfg.mode, "primary");
    assert!(cfg.is_user_selectable());
    assert!(!cfg.is_subagent_callable());
}

#[test]
fn test_agent_mode_primary() {
    let cfg = agent_of(r#"mode = "primary""#);
    assert!(cfg.is_user_selectable());
    assert!(!cfg.is_subagent_callable());
}

#[test]
fn test_agent_mode_subagent() {
    let cfg = agent_of(r#"mode = "subagent""#);
    assert!(!cfg.is_user_selectable());
    assert!(cfg.is_subagent_callable());
}

#[test]
fn test_agent_mode_all() {
    let cfg = agent_of(r#"mode = "all""#);
    assert!(cfg.is_user_selectable());
    assert!(cfg.is_subagent_callable());
}

#[test]
fn test_agent_mode_with_permissions() {
    let cfg = agent_of(
        r#"
mode = "all"
[permissions]
read = "ask"
bash = "allow"
subagent = "deny"
"#,
    );
    assert_eq!(cfg.mode, "all");
    assert_eq!(cfg.permissions.get("read").copied(), Some(Permission::Ask));
    assert_eq!(cfg.permissions.get("bash").copied(), Some(Permission::Allow));
    assert_eq!(cfg.permissions.get("subagent").copied(), Some(Permission::Deny));
    assert!(cfg.permissions.get("nonexistent").is_none());
}

#[test]
fn test_agent_mode_serialized_from_toml_file() {
    let cfg = agent_of(
        r#"
model = "deepseek/deepseek-v4-flash"
mode = "all"
temperature = 0.2
[permissions]
bash = "deny"
"#,
    );
    assert_eq!(cfg.mode, "all");
    assert!(cfg.is_user_selectable());
    assert!(cfg.is_subagent_callable());
    assert_eq!(cfg.temperature.map(f32::from_bits), Some(0.2));
    assert_eq!(cfg.permissions.get("bash").copied(), Some(Permission::Deny));
}

#[test]
fn test_server_config_default_port() {
    assert_eq!(config_of(OLLAMA).server.port, 9847);
}

#[test]
fn test_server_config_custom_port() {
    let config = config_of(&format!("{}\n[server]\nport = 9848\n", OLLAMA));
    assert_eq!(config.server.port, 9848);
}

#[test]
fn test_server_config_empty_section_defaults() {
    let config = config_of(&format!("{}\n[server]\n", OLLAMA));
    assert_eq!(config.server.port, 9847);
}

#[test]
fn test_server_config_max_steps_default() {
    assert_eq!(config_of(OLLAMA).server.max_steps, 10);
}

#[test]
fn test_server_config_max_steps_custom() {
    let config = config_of(&format!("{}\n[server]\nmax_steps = 25\n", OLLAMA));
    assert_eq!(config.server.max_steps, 25);
}

#[test]
fn test_logging_dir_default() {
    assert!(config_of(OLLAMA).logging.dir.contains("mote/logs"));
}

#[test]
fn test_logging_dir_custom() {
    let config = config_of(&format!("{}\n[logging]\ndir = \"/tmp/mote-logs\"\n", OLLAMA));
    assert_eq!(config.logging.dir, "/tmp/mote-logs");
}

#[test]
fn test_build_permission_map_basic() {
    let cfg = config_of(
        r#"
[model]
provider = "ollama"
model_id = "m"

[providers.ollama]
base_url = "http://localhost:11434"

[permissions]
default = "ask"
read = "allow"
"#,
    );
    let tools = vec!["read".to_string(), "bash".to_string()];
    let perms = build_permission_map(&cfg, None, &tools);
    assert_eq!(perms.get("read"), Some(&Permission::Allow));
    assert_eq!(perms.get("bash"), Some(&Permission::Ask));
    assert_eq!(perms.get("use_skill"), Some(&Permission::Allow));
}

#[test]
fn expansion_replaces_several_references() {
    let env = env(&[("A", "1"), ("B_2", "two")]);
    assert_eq!(Config::expand("x${A}y${B_2}${A}", &env), "x1ytwo1");
    assert_eq!(Config::expand("${A", &env), "${A");
    assert_eq!(Config::expand("${1A}", &env), "${1A}");
    assert_eq!(Config::expand("", &env), "");
}

#[test]
fn expansion_is_not_repeated() {
    let env = env(&[("A", "${B}"), ("B", "b")]);
    assert_eq!(Config::expand("${A}", &env), "${B}");
}

#[test]
fn agents_choose_provider_and_model() {
    let config = config_of(OLLAMA);
    assert_eq!(config.effective_provider(Some("glm/glm-5.2")), "glm");
    assert_eq!(config.effective_model_id(Some("glm/glm-5.2")), "glm-5.2");
    assert_eq!(config.effective_provider(Some("plain")), "ollama");
    assert_eq!(config.effective_model_id(Some("plain")), "plain");
    assert_eq!(config.effective_model_id(None), "test");
    assert_eq!(config.effective_model_info(Some("a/b/c")), "a/b/c");
}

#[test]
fn providers_set_default_models() {
    let config = config_of(
        r#"
[model]
provider = "github"
model_id = "m"
[providers.github]
default_model = "gpt-4o"
"#,
    );
    assert_eq!(config.effective_model_id(None), "gpt-4o");
    assert_eq!(config.github_default_model(), Some("gpt-4o"));
    assert_eq!(
        config.github_base_url(&env(&[])).unwrap(),
        "https://models.github.ai/inference"
    );
}

#[test]
fn temperatures_fall_back() {
    let config = config_of(OLLAMA);
    assert_eq!(f32::from_bits(config.effective_temperature(None)), 0.3);
    assert_eq!(f32::from_bits(config.effective_temperature(Some(0.7f32.to_bits()))), 0.7);
}

#[test]
fn credentials_go_before_configured_keys() {
    let config = config_of("[model]\nprovider = \"deepseek\"\nmodel_id = \"x\"\n[providers.deepseek]\napi_key = \"in-config\"\nbase_url = \"https://x/v1//\"\n");
    let mut auth = Auth::default();
    auth.providers.insert(
        "deepseek".into(),
        ProviderAuth { api_key: Some("in-auth".into()), token: None, extra: StrMap::new() },
    );
    assert_eq!(config.resolve_deepseek_api_key(&auth, &env(&[])).unwrap(), "in-auth");
    assert_eq!(config.deepseek_base_url(&env(&[])).unwrap(), "https://x/v1");
}

#[test]
fn missing_settings_are_reported() {
    let config = config_of("[model]\nprovider = \"deepseek\"\nmodel_id = \"x\"\n");
    let auth = Auth::default();
    let env = env(&[]);
    assert_eq!(
        config.resolve_deepseek_api_key(&auth, &env).unwrap_err(),
        "No DeepSeek API key found. Add it to ~/.config/mote/auth.json: {\"deepseek\":{\"api_key\":\"sk-...\"}}"
    );
    assert_eq!(config.deepseek_base_url(&env).unwrap_err(), "DeepSeek not configured");
    assert_eq!(config.ollama_base_url(&env).unwrap_err(), "Ollama not configured");
    assert!(config.resolve_provider_api_key(&auth, "glm", &env).is_err());
    assert_eq!(
        config.resolve_github_token(&auth, &env).unwrap_err(),
        "No GitHub token found in auth.json. Run --login github first."
    );
    assert_eq!(config.provider_base_url("kimi").unwrap(), "https://api.moonshot.ai");
    assert!(config.provider_base_url("nobody").is_err());
}

#[test]
fn agents_are_named_in_order() {
    let config = config_of(&format!("{}\n[agents.zeta]\n[agents.alpha]\n", OLLAMA));
    assert_eq!(config.agent_names(), vec!["alpha".to_string(), "zeta".to_string()]);
}

#[test]
fn unknown_modes_become_primary() {
    let mut agents = StrMap::new();
    add_file_agent(&mut agents, "odd.toml", agent_of(r#"mode = "sometimes""#));
    assert_eq!(agents.get("odd").unwrap().mode, "primary");
    add_file_agent(&mut agents, "notes.txt", AgentConfig::default());
    assert!(!agents.contains_key("notes"));
}

#[test]
fn nobody_is_asked_without_a_user() {
    let cfg = config_of(OLLAMA);
    let perms = build_permission_map(&cfg, None, &vec!["bash".to_string()]);
    assert_eq!(perms.get("bash"), Some(&Permission::Ask));
    let perms = unattended_permissions(perms);
    assert_eq!(perms.get("bash"), Some(&Permission::Allow));
}

#[test]
fn remembered_tools_are_allowed_unless_denied() {
    let cfg = config_of(&format!("{}\n[permissions]\ndefault = \"ask\"\nwrite = \"deny\"\n", OLLAMA));
    let names = vec!["bash".to_string(), "write".to_string(), "read".to_string()];
    let perms = build_permission_map(&cfg, None, &names);
    let perms = allow_remembered(perms, &vec!["bash".to_string(), "write".to_string()]);
    assert_eq!(perms.get("bash"), Some(&Permission::Allow));
    assert_eq!(perms.get("write"), Some(&Permission::Deny));
    assert_eq!(perms.get("read"), Some(&Permission::Ask));
}

#[test]
fn permissions_are_displayed() {
    assert_eq!(Permission::Allow.display(), "allow");
    assert_eq!(Permission::Ask.display(), "ask");
    assert_eq!(Permission::Deny.display(), "deny");
}

#[test]
fn locations_follow_the_home_directory() {
    assert_eq!(config_location(Some("/home/me"), "auth.json"), "/home/me/.config/mote/auth.json");
    assert_eq!(config_location(None, "auth.json"), "auth.json");
}
