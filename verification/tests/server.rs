use mote_server::agent::AgentEvent;
use mote_server::auth::Auth;
use mote_server::clock::Timestamp;
use mote_server::config::{
    AgentConfig, Config, GlobalPermissionConfig, HistoryConfig, LoggingConfig, ModelConfig,
    Permission, PromptConfig, ProviderOllama, ProvidersConfig, ServerConfig, UiConfig,
};
use mote_server::history::parse;
use mote_server::history::serialize;
use mote_server::json::Json;
use mote_server::llm::{ChatMessage, ChatOptions, Provider, Role, RollbackEntry, RollbackKind};
use mote_server::protocol::{
    ChatRequest, ClientEvent, CompactRequest, CompactionState, HistoryMessage, ServerEvent,
};
use mote_server::server::compaction::{
    compact_transcript_text, compacted_session, compaction_context_message, compaction_state,
    is_compaction_context_message, needs_saved, plan_compaction, run_session, SavedSession,
};
use mote_server::server::requests::{
    accept_chat, accept_compaction, apply_selected_session_id, choose_run, credential_from_body,
    history_dir_for_session, list_models, listed_providers, new_run_id, next_port,
    protocol_role_for_session, request_history, resolve_agent_context, resolve_request_context,
    port_setting, run_id_at, run_permissions, runtime_session_key_from_header, server_port_override, session_data,
    session_file, session_info, ui_config, validate_runtime_session_key, validate_session_id,
    RunChoice, WorkspaceFacts,
};
use mote_server::server::rollback::{
    hash64, plan_rollback, step_failed, undo_all, FailedStep, FileAction, FoundFile,
};
use mote_server::server::{
    agent_event_to_server_event, is_terminal_event, rollback_event, terminal_status,
    ClientAction, RollbackChangeSet, RunStatus, RuntimeSessionState, ServerState,
};
use mote_server::session::{Message, Session, SessionMeta};
use mote_server::strmap::StrMap;
use mote_server::tools::defs::{DeleteTool, EditTool, WriteTool};

fn config() -> Config {
    Config {
        model: ModelConfig {
            provider: "ollama".into(),
            model_id: "m".into(),
            temperature: 0.3f32.to_bits(),
            max_tokens: 4096,
        },
        providers: ProvidersConfig {
            deepseek: None,
            github: None,
            ollama: Some(ProviderOllama {
                base_url: "http://localhost:11434".into(),
                default_model: None,
                default_max_tokens: None,
            }),
        },
        history: HistoryConfig { dir: "history".into() },
        prompts: PromptConfig::default(),
        ui: UiConfig::default(),
        agents: StrMap::new(),
        permissions: GlobalPermissionConfig::default(),
        server: ServerConfig::default(),
        logging: LoggingConfig { dir: "logs".into() },
    }
}

fn agent(mode: &str, model: Option<&str>) -> AgentConfig {
    let mut a = AgentConfig::default();
    a.mode = mode.into();
    a.model = model.map(|m| m.to_string());
    a
}

fn said(role: &str, content: &str) -> HistoryMessage {
    HistoryMessage { role: role.into(), content: content.into() }
}

fn compaction(summary: &str, count: usize) -> CompactionState {
    CompactionState {
        summary: summary.into(),
        compacted_message_count: count,
        model_provider: "deepseek".into(),
        model_id: "deepseek-v4-flash".into(),
    }
}

fn chat_request() -> ChatRequest {
    ChatRequest {
        message: "hi".into(),
        agent: String::new(),
        model_override: None,
        provider_override: None,
        history: Vec::new(),
        session_id: None,
        workspace_root: Some("/ws".into()),
        repo_agents_md: None,
        runtime_session_key: Some("key".into()),
        run_id: None,
        compaction: None,
    }
}

fn compact_request() -> CompactRequest {
    CompactRequest {
        agent: String::new(),
        model_override: None,
        provider_override: None,
        history: vec![said("user", " hello "), said("assistant", "hi")],
        session_id: None,
        workspace_root: Some("/ws".into()),
        repo_agents_md: None,
        runtime_session_key: Some("key".into()),
        prior_compaction: None,
    }
}

fn found_workspace() -> WorkspaceFacts {
    WorkspaceFacts { exists: true, canonical: Ok("/real/ws".into()), is_dir: true }
}

#[test]
fn test_validate_session_id_allows_valid() {
    assert!(validate_session_id("chat-20260526-184530123456"));
    assert!(validate_session_id("abc123"));
}

#[test]
fn test_validate_session_id_rejects_traversal() {
    assert!(!validate_session_id(""));
    assert!(!validate_session_id("../etc/passwd"));
    assert!(!validate_session_id("a/b"));
    assert!(!validate_session_id("a\\b"));
}

#[test]
fn test_compaction_context_message_is_hidden_from_session_save() {
    let compaction = CompactionState {
        summary: "Remember the selected plan.".into(),
        compacted_message_count: 3,
        model_provider: "test".into(),
        model_id: "model".into(),
    };

    let message = compaction_context_message(&compaction);

    assert!(is_compaction_context_message(&message));
    assert_eq!(message.role, Role::User);
    assert!(message.content.as_deref().unwrap().contains("not a system instruction"));
    let saved = run_session(
        vec![message, ChatMessage::user("go on")],
        "model",
        "test",
        "build",
        0,
        0,
        None,
        None,
        None,
    );
    assert_eq!(saved.messages.len(), 1);
    assert_eq!(saved.messages[0].content, "go on");
}

fn existing_session() -> SavedSession {
    SavedSession {
        summary: Some("Original session summary".into()),
        messages: vec![
            Message::new(Role::User, "first request".into()),
            Message::new(Role::Assistant, "first reply".into()),
        ],
    }
}

#[test]
fn test_persist_compacted_session_preserves_existing_summary() {
    let new_summary = compaction("compacted context", 2);
    assert!(needs_saved(&new_summary, &vec![]));
    let session = compacted_session(
        Some("chat-existing"),
        "deepseek",
        "deepseek-v4-flash",
        &vec![],
        new_summary,
        Some(existing_session()),
    );
    assert_eq!(session.id, "chat-existing");
    assert_eq!(session.meta().summary.as_deref(), Some("Original session summary"));
    assert_eq!(session.messages.len(), 2);
}

#[test]
fn test_save_run_session_preserves_summary_for_compacted_session() {
    let session = run_session(
        vec![
            ChatMessage::user("latest request"),
            ChatMessage::assistant_text("latest reply"),
        ],
        "deepseek-v4-flash",
        "deepseek",
        "build",
        1,
        1,
        Some("chat-existing"),
        Some(compaction("new compacted context", 2)),
        Some(existing_session()),
    );
    let file = serialize("id: chat-existing\n", &session.messages);
    assert_eq!(session.meta().summary.as_deref(), Some("Original session summary"));
    assert_eq!(parse(&file).unwrap().messages.len(), 4);
    assert_eq!(session.messages[0].content, "first request");
    assert_eq!(session.messages[3].content, "latest reply");
    assert_eq!(session.compaction.unwrap().summary, "new compacted context");
}

#[test]
fn test_validate_runtime_session_key() {
    assert!(validate_runtime_session_key("abc-123_def:1"));
    assert!(!validate_runtime_session_key(""));
    assert!(!validate_runtime_session_key("../../bad"));
    assert!(!validate_runtime_session_key("bad key"));
}

#[test]
fn test_runtime_session_key_from_headers() {
    assert_eq!(runtime_session_key_from_header(Some("abc-123")).as_deref(), Some("abc-123"));
    assert_eq!(runtime_session_key_from_header(Some(" abc-123 ")).as_deref(), Some("abc-123"));
    assert!(runtime_session_key_from_header(Some("bad key")).is_none());
    assert!(runtime_session_key_from_header(None).is_none());
}

#[test]
fn test_protocol_role_for_session_filters_non_conversation_roles() {
    assert_eq!(protocol_role_for_session(Role::User), Some("user"));
    assert_eq!(protocol_role_for_session(Role::Assistant), Some("assistant"));
    assert_eq!(protocol_role_for_session(Role::System), None);
    assert_eq!(protocol_role_for_session(Role::Tool), None);
}

#[test]
fn test_apply_selected_session_id_overrides_when_present() {
    let mut sess = Session::new("p".to_string(), "m".to_string());
    let original = sess.id.clone();
    apply_selected_session_id(&mut sess, Some("sess-picked"));
    assert_eq!(sess.id, "sess-picked");

    apply_selected_session_id(&mut sess, None);
    assert_eq!(sess.id, "sess-picked");
    assert_ne!(sess.id, original);
}

fn set_of(id: &str, tool: &str, entries: Vec<RollbackEntry>) -> RollbackChangeSet {
    RollbackChangeSet {
        id: id.into(),
        tool_name: tool.into(),
        entries,
        display_changes: Vec::new(),
    }
}

fn present(content: &str) -> FoundFile {
    FoundFile { exists: true, content: Ok(content.into()) }
}

fn absent() -> FoundFile {
    FoundFile { exists: false, content: Err("No such file".into()) }
}

#[test]
fn test_rollback_conflict_preserves_journal_entry() {
    let mut state = ServerState::new();
    let mut session = RuntimeSessionState::new();
    session.add_changes(set_of(
        "tool_1",
        "edit",
        vec![RollbackEntry {
            path: "/ws/edited.txt".into(),
            kind: RollbackKind::Modified,
            before_content: Some("before".into()),
            expected_after_hash: Some(hash64("after")),
        }],
    ));
    state.sessions.insert("sess".into(), session);

    let set = state.last_changes("sess").unwrap();
    let refused = plan_rollback(&set, &vec![present("changed by user")]).unwrap_err();

    assert!(!refused.success);
    assert_eq!(
        refused.message,
        "Rollback blocked: /ws/edited.txt changed since the original edit."
    );
    assert_eq!(state.sessions.get("sess").unwrap().rollback_journal.len(), 1);
}

#[test]
fn rollback_undoes_each_tool() {
    let edit = EditTool::report("/ws/a", "before".into(), "after");
    let set = set_of("c1", "edit", edit.rollback_entries);
    let actions = plan_rollback(&set, &vec![present("after")]).unwrap();
    assert!(matches!(&actions[0], FileAction::Write { path, content }
        if path == "/ws/a" && content == "before"));

    let write = WriteTool::report("/ws/b", None, "new");
    let set = set_of("c2", "write", write.rollback_entries);
    let actions = plan_rollback(&set, &vec![present("new")]).unwrap();
    assert!(matches!(&actions[0], FileAction::Remove { path } if path == "/ws/b"));

    let delete = DeleteTool::report("/ws/c", "gone".into());
    let set = set_of("c3", "delete", delete.rollback_entries);
    let actions = plan_rollback(&set, &vec![absent()]).unwrap();
    assert!(matches!(&actions[0], FileAction::Restore { path, content }
        if path == "/ws/c" && content == "gone"));
}

#[test]
fn rollback_names_its_conflicts() {
    let refusal = |entries: Vec<RollbackEntry>, found: FoundFile| {
        plan_rollback(&set_of("c", "t", entries), &vec![found]).unwrap_err().message
    };
    let edit = || EditTool::report("/a", "x".into(), "y").rollback_entries;
    let write = || WriteTool::report("/a", None, "y").rollback_entries;
    let delete = || DeleteTool::report("/a", "x".into()).rollback_entries;
    assert_eq!(
        refusal(edit(), absent()),
        "Rollback blocked: failed to read /a: No such file"
    );
    assert_eq!(refusal(write(), absent()), "Rollback blocked: /a is already missing.");
    assert_eq!(
        refusal(write(), present("z")),
        "Rollback blocked: /a changed since it was added."
    );
    let unreadable = FoundFile { exists: true, content: Err("denied".into()) };
    assert_eq!(refusal(write(), unreadable), "Rollback blocked: failed to read /a: denied");
    assert_eq!(refusal(delete(), present("x")), "Rollback blocked: /a already exists.");
}

#[test]
fn failed_steps_are_reported() {
    let write = FileAction::Write { path: "/a".into(), content: "x".into() };
    let remove = FileAction::Remove { path: "/a".into() };
    let restore = FileAction::Restore { path: "/d/a".into(), content: "x".into() };
    assert_eq!(
        step_failed(&write, &FailedStep::File, "full").message,
        "Rollback failed writing /a: full"
    );
    assert_eq!(
        step_failed(&remove, &FailedStep::File, "gone").message,
        "Rollback failed removing /a: gone"
    );
    assert_eq!(
        step_failed(&restore, &FailedStep::File, "full").message,
        "Rollback failed restoring /d/a: full"
    );
    let failed = step_failed(&restore, &FailedStep::Directory("/d".into()), "full");
    assert_eq!(failed.message, "Rollback failed creating /d: full");
    assert!(!failed.success);
    assert!(undo_all(&vec![]).is_empty());
}

#[test]
fn rollback_is_kept_apart_by_client() {
    let mut state = ServerState::new();
    assert_eq!(
        state.last_changes("one").err().unwrap().message,
        "No reversible changes available in this session."
    );
    state.start_run("run_1", "one");
    let report = EditTool::report("/ws/a", "before".into(), "after");
    let progress = state.run_event(
        "run_1",
        "one",
        Ok(AgentEvent::ToolCompleted {
            id: "c1".into(),
            name: "edit".into(),
            result: report.output,
            changes: report.changes,
            rollback_entries: report.rollback_entries,
        }),
    );
    assert!(!progress.finished);
    assert!(progress.save.is_none());
    assert!(state.last_changes("two").is_err());
    let set = state.last_changes("one").unwrap();
    assert_eq!(set.id, "c1");
    let answer = state.finish_rollback("one", set);
    assert!(answer.success);
    assert_eq!(answer.message, "Rolled back c1 (edit)");
    assert_eq!(answer.changes.len(), 1);
    assert!(state.last_changes("one").is_err());
    assert!(matches!(
        rollback_event(answer),
        ServerEvent::RollbackResult { success: true, .. }
    ));
}

fn done(content: &str) -> AgentEvent {
    AgentEvent::Done {
        content: content.into(),
        tokens_input: 3,
        tokens_output: 4,
        history: vec![ChatMessage::user("hi"), ChatMessage::assistant_text(content)],
    }
}

#[test]
fn runs_outlive_their_clients() {
    let mut state = ServerState::new();
    state.start_run("run_1", "key");
    state.run_event("run_1", "key", Ok(AgentEvent::TextDelta("he".into())));
    let early = state.attach("run_1").unwrap();
    assert!(!early.ended);
    assert_eq!(early.runtime_session_key, "key");
    assert_eq!(early.events.len(), 3);
    assert!(matches!(early.events[0], ServerEvent::RunStarted { .. }));
    assert!(matches!(early.events[2], ServerEvent::RunAttached { .. }));

    let progress = state.run_event("run_1", "key", Ok(done("hello")));
    assert!(progress.finished);
    let saved = progress.save.unwrap();
    assert_eq!((saved.tokens_input, saved.tokens_output), (3, 4));
    assert_eq!(saved.history.len(), 2);
    let late = state.attach("run_1").unwrap();
    assert!(late.ended);
    assert_eq!(late.events.len(), 3);
    assert!(matches!(late.events[2], ServerEvent::Done { .. }));
    assert!(state.attach("run_2").is_none());
}

#[test]
fn errors_end_runs() {
    let mut state = ServerState::new();
    state.start_run("run_1", "key");
    let progress = state.run_event("run_1", "key", Err("boom".into()));
    assert!(progress.finished);
    assert!(progress.save.is_none());
    assert_eq!(terminal_status(&progress.event), Some(RunStatus::Failed));
    let unknown = state.run_event("run_9", "key", Ok(AgentEvent::TextDelta("x".into())));
    assert!(!unknown.finished);
    assert!(state.attach("run_9").is_none());
}

#[test]
fn ends_of_runs_are_told_apart() {
    let event = agent_event_to_server_event(done("x"));
    assert_eq!(terminal_status(&event), Some(RunStatus::Done));
    let cancelled = ServerEvent::Cancelled {
        content: String::new(),
        tokens_input: 0,
        tokens_output: 0,
    };
    assert_eq!(terminal_status(&cancelled), Some(RunStatus::Cancelled));
    let more = ServerEvent::NeedsContinuation {
        content: String::new(),
        tokens_input: 0,
        tokens_output: 0,
    };
    assert_eq!(terminal_status(&more), Some(RunStatus::NeedsContinuation));
    assert!(!is_terminal_event(&ServerEvent::TextDelta { data: "x".into() }));
}

#[test]
fn allowed_tools_are_remembered() {
    let mut state = ServerState::new();
    state.start_run("run_1", "key");
    state.run_event(
        "run_1",
        "key",
        Ok(AgentEvent::PermissionRequest {
            id: "perm_c".into(),
            tool_name: "bash".into(),
            args: Json::Object(vec![]),
        }),
    );
    let reply = |id: &str, allowed: bool, remember: bool| ClientEvent::PermissionResponse {
        id: id.into(),
        allowed,
        remember,
    };
    let action = state.client_event("run_1", "key", reply("perm_c", false, true));
    assert!(matches!(action, ClientAction::AnswerPermission { allowed: false, .. }));
    assert!(state.remembered_tools("key").is_empty());
    state.client_event("run_1", "key", reply("perm_other", true, true));
    assert!(state.remembered_tools("key").is_empty());
    state.client_event("run_1", "key", reply("perm_c", true, true));
    state.client_event("run_1", "key", reply("perm_c", true, true));
    assert_eq!(state.remembered_tools("key"), vec!["bash".to_string()]);
    assert!(state.remembered_tools("other").is_empty());
    let unknown = state.client_event("run_9", "key", reply("perm_c", true, true));
    assert!(matches!(unknown, ClientAction::Nothing));
    let perms = run_permissions(&config(), None, "/ws", &state.remembered_tools("key"));
    assert_eq!(perms.get("bash"), Some(&Permission::Allow));
    assert_eq!(perms.get("write"), Some(&Permission::Ask));
}

#[test]
fn clients_cancel_and_roll_back() {
    let mut state = ServerState::new();
    state.start_run("run_1", "key");
    assert!(matches!(
        state.client_event("run_1", "key", ClientEvent::Cancel),
        ClientAction::CancelRun
    ));
    assert!(matches!(
        state.client_event("run_9", "key", ClientEvent::Cancel),
        ClientAction::Nothing
    ));
    let own = state.client_event(
        "run_1",
        "key",
        ClientEvent::RollbackLast { runtime_session_key: None },
    );
    assert!(matches!(own, ClientAction::Rollback { ref runtime_session_key }
        if runtime_session_key == "key"));
    let other = state.client_event(
        "run_1",
        "key",
        ClientEvent::RollbackLast { runtime_session_key: Some("k2".into()) },
    );
    match other {
        ClientAction::Refuse { payload } => {
            assert!(!payload.success);
            assert_eq!(
                payload.message,
                "Rollback blocked: a client can only roll back its own changes."
            );
            assert!(payload.changes.is_empty());
        }
        _ => panic!("the changes of another client are not rolled back"),
    }
    let named = state.client_event(
        "run_1",
        "key",
        ClientEvent::RollbackLast { runtime_session_key: Some("key".into()) },
    );
    assert!(matches!(named, ClientAction::Rollback { ref runtime_session_key }
        if runtime_session_key == "key"));
}

#[test]
fn requests_are_checked() {
    let refusal = |request: ChatRequest, found: WorkspaceFacts| {
        resolve_request_context(&request, &found).err().unwrap()
    };
    let mut request = chat_request();
    request.workspace_root = None;
    assert_eq!(refusal(request, found_workspace()), "Missing workspace_root in chat request");
    let mut request = chat_request();
    request.workspace_root = Some("ws".into());
    assert_eq!(refusal(request, found_workspace()), "workspace_root must be an absolute path");
    let gone = WorkspaceFacts { exists: false, canonical: Err("x".into()), is_dir: false };
    assert_eq!(refusal(chat_request(), gone), "workspace_root does not exist: /ws");
    let odd = WorkspaceFacts { exists: true, canonical: Err("loop".into()), is_dir: false };
    assert_eq!(
        refusal(chat_request(), odd),
        "Failed to canonicalize workspace_root /ws: loop"
    );
    let file = WorkspaceFacts { exists: true, canonical: Ok("/real/ws".into()), is_dir: false };
    assert_eq!(
        refusal(chat_request(), file),
        "workspace_root is not a directory: /real/ws"
    );
    let mut request = chat_request();
    request.runtime_session_key = None;
    assert_eq!(
        refusal(request, found_workspace()),
        "Missing runtime_session_key in chat request"
    );
    let mut request = chat_request();
    request.runtime_session_key = Some("bad key".into());
    assert_eq!(refusal(request, found_workspace()), "Invalid runtime_session_key");
    let context = resolve_request_context(&chat_request(), &found_workspace()).unwrap();
    assert_eq!(context.workspace, "/real/ws");
    assert_eq!(context.runtime_session_key, "key");
}

#[test]
fn requests_are_accepted_for_selectable_agents() {
    let mut agents = StrMap::new();
    agents.insert("helper".to_string(), agent("subagent", None));
    let accepted = accept_chat(&chat_request(), &found_workspace(), "build", &agents).unwrap();
    assert_eq!(accepted.agent_name, "build");
    let mut request = chat_request();
    request.agent = "helper".into();
    assert_eq!(
        accept_chat(&request, &found_workspace(), "build", &agents).err().unwrap(),
        "Agent 'helper' is a subagent-only agent and cannot be used directly. Use a primary agent and delegate via the subagent tool."
    );
    let mut request = chat_request();
    request.session_id = Some("../x".into());
    assert_eq!(
        accept_chat(&request, &found_workspace(), "build", &agents).err().unwrap(),
        "Invalid session_id"
    );
    let mut request = compact_request();
    request.agent = "helper".into();
    assert_eq!(
        accept_compaction(&request, &found_workspace(), "build", &agents).err().unwrap(),
        "Agent 'helper' is not user-selectable"
    );
    assert!(accept_compaction(&compact_request(), &found_workspace(), "build", &agents).is_ok());
}

#[test]
fn models_are_chosen_by_request_and_agent() {
    let config = config();
    let mut agents = StrMap::new();
    let mut coder = agent("primary", Some("ollama/qwen"));
    coder.max_tokens = Some(77);
    agents.insert("coder".to_string(), coder);
    let env = StrMap::new();
    let auth = Auth::default();
    let own = resolve_agent_context(&config, &auth, &env, &agents, "coder", None, None).unwrap();
    assert_eq!(own.eff_model_id, "qwen");
    assert_eq!(own.opts.max_tokens, 77);
    assert!(matches!(own.provider, Provider::Ollama(_)));
    let over = resolve_agent_context(
        &config,
        &auth,
        &env,
        &agents,
        "coder",
        Some("ollama/llama"),
        None,
    )
    .unwrap();
    assert_eq!(over.eff_model_id, "llama");
    let named = resolve_agent_context(
        &config,
        &auth,
        &env,
        &agents,
        "coder",
        Some("plain"),
        Some("acme"),
    );
    assert_eq!(
        named.err().unwrap(),
        "Unknown provider 'acme'. Supported: deepseek, glm, kimi, minimax, ollama"
    );
}

#[test]
fn runs_are_chosen() {
    let mut state = ServerState::new();
    state.start_run("run_1", "key");
    assert!(matches!(
        choose_run(&state, &Some("run_1".into())),
        Ok(RunChoice::Attach { ref run_id }) if run_id == "run_1"
    ));
    assert_eq!(
        choose_run(&state, &Some("run_2".into())).err().unwrap(),
        "Unknown run_id: run_2"
    );
    assert!(matches!(choose_run(&state, &None), Ok(RunChoice::Start { .. })));
    assert_eq!(run_id_at("20250525233658084098"), "run_20250525233658084098");
    let id = new_run_id();
    assert_eq!(id.len(), 24);
    assert!(id[4..].chars().all(|c| c.is_ascii_digit()));
}

#[test]
fn requests_continue_conversations() {
    let mut request = chat_request();
    request.history = vec![said("user", "a"), said("tool", "x"), said("assistant", "b")];
    request.compaction = Some(compaction(" earlier ", 2));
    let history = request_history(&request);
    assert_eq!(history.len(), 3);
    assert!(is_compaction_context_message(&history[0]));
    assert!(history[0].content.as_deref().unwrap().ends_with(
        "It summarizes the first 2 visible conversation messages and was generated by deepseek/deepseek-v4-flash.\n\nearlier"
    ));
    assert_eq!(history[1].role, Role::User);
    assert_eq!(history[2].role, Role::Assistant);
}

#[test]
fn transcripts_are_written() {
    let text = compact_transcript_text(
        Some(&compaction(" before ", 1)),
        &vec![said("user", " hello "), said("assistant", "hi")],
    );
    assert_eq!(
        text,
        "<previous_compaction>\nbefore\n</previous_compaction>\n\n<conversation>\nUSER:\nhello\n\nASSISTANT:\nhi\n\n</conversation>"
    );
}

#[test]
fn compaction_is_planned() {
    let mut request = compact_request();
    request.prior_compaction = Some(compaction("before", 3));
    let plan = plan_compaction(&request, &ChatOptions::default()).unwrap();
    assert_eq!(plan.compacted_message_count, 5);
    assert_eq!(f32::from_bits(plan.options.temperature), 0.1);
    assert_eq!(plan.options.max_tokens, 1600);
    assert_eq!(plan.messages.len(), 2);
    assert_eq!(plan.messages[0].role, Role::System);
    let mut empty = compact_request();
    empty.history = Vec::new();
    assert_eq!(
        plan_compaction(&empty, &ChatOptions::default()).err().unwrap(),
        "Nothing to compact"
    );
    let state = compaction_state(Some("  short  "), 5, "p", "m").unwrap();
    assert_eq!(state.summary, "short");
    assert_eq!(state.compacted_message_count, 5);
    assert_eq!(
        compaction_state(Some("  "), 5, "p", "m").err().unwrap(),
        "Compaction returned an empty summary"
    );
    assert!(compaction_state(None, 5, "p", "m").is_err());
}

#[test]
fn compacted_sessions_are_summed_up_anew() {
    let session = compacted_session(
        None,
        "p",
        "m",
        &vec![said("user", "one two"), said("system", "x"), said("assistant", "b")],
        compaction("short", 3),
        Some(existing_session()),
    );
    assert!(session.id.starts_with("chat-"));
    assert_eq!(session.summary.as_deref(), Some("one two"));
    assert_eq!(session.messages.len(), 2);
}

#[test]
fn clients_are_told_the_configuration() {
    let config = config();
    let mut agents = StrMap::new();
    agents.insert("zeta".to_string(), agent("primary", Some("glm/g")));
    agents.insert("helper".to_string(), agent("subagent", None));
    agents.insert("alpha".to_string(), agent("all", None));
    let ui = ui_config(&config, &agents);
    assert_eq!(ui.agent_names, vec!["alpha".to_string(), "zeta".to_string()]);
    assert_eq!(ui.subagent_names, vec!["alpha".to_string(), "helper".to_string()]);
    assert_eq!(ui.model_info, "ollama/m");
    assert_eq!(ui.default_agent, "default");
    assert_eq!(ui.agent_model_info.get("zeta").unwrap(), "glm/g");
    assert_eq!(ui.agent_model_info.get("default").unwrap(), "ollama/m");
    assert!(!ui.agent_model_info.contains_key("helper"));
}

fn meta() -> SessionMeta {
    SessionMeta {
        id: "chat-1".into(),
        created: Timestamp { secs: 0, nanos: 0 },
        updated: Timestamp { secs: 1, nanos: 0 },
        model_provider: "p".into(),
        model_id: "m".into(),
        tokens_input: 1,
        tokens_output: 2,
        version: "0.1.0".into(),
        summary: Some("about".into()),
        compaction: None,
    }
}

#[test]
fn sessions_are_shown() {
    let info = session_info(meta(), 4);
    assert_eq!(info.created, "1970-01-01T00:00:00+00:00");
    assert_eq!(info.model, "p/m");
    assert_eq!(info.message_count, 4);
    assert_eq!(info.summary.as_deref(), Some("about"));
    let messages = vec![
        Message::new(Role::System, "s".into()),
        Message::new(Role::User, "u".into()),
        Message::new(Role::Assistant, "a".into()),
    ];
    let data = session_data(meta(), &messages);
    assert_eq!(data.messages.len(), 2);
    assert_eq!(data.messages[0].role, "user");
    assert_eq!(data.messages[1].content, "a");
    assert_eq!(history_dir_for_session("/h", "key"), "/h/key");
    assert_eq!(session_file("/h", "key", "chat-1"), "/h/key/chat-1.md");
}

#[test]
fn credentials_are_read_from_requests() {
    let body = |members: &[(&str, &str)]| {
        Json::Object(
            members.iter().map(|(k, v)| (k.to_string(), Json::Text(v.to_string()))).collect(),
        )
    };
    let c = credential_from_body(&body(&[("provider", "p"), ("api_key", "k"), ("token", "t")]))
        .unwrap();
    assert_eq!((c.provider.as_str(), c.field.as_str(), c.value.as_str()), ("p", "token", "t"));
    let c = credential_from_body(&body(&[("provider", "p"), ("api_key", "k")])).unwrap();
    assert_eq!((c.field.as_str(), c.value.as_str()), ("api_key", "k"));
    assert_eq!(
        credential_from_body(&body(&[("token", "t")])).err().unwrap(),
        "Missing field: provider"
    );
    assert_eq!(
        credential_from_body(&body(&[("provider", "p")])).err().unwrap(),
        "Missing field: token or api_key"
    );
}

#[test]
fn models_are_listed_by_provider() {
    assert_eq!(listed_providers(), vec!["deepseek", "glm", "kimi", "minimax", "ollama", "github"]);
    let mut listing = Vec::new();
    list_models(&mut listing, "glm", &vec!["a".to_string(), "b".to_string()]);
    list_models(&mut listing, "kimi", &vec!["c".to_string()]);
    let listed: Vec<(String, String)> =
        listing.into_iter().map(|m| (m.provider, m.model_id)).collect();
    assert_eq!(listed[1], ("glm".to_string(), "b".to_string()));
    assert_eq!(listed[2], ("kimi".to_string(), "c".to_string()));
}

#[test]
fn ports_come_from_the_environment() {
    let env = |entries: &[(&str, &str)]| {
        let mut map = StrMap::new();
        for (k, v) in entries {
            map.insert(k.to_string(), v.to_string());
        }
        map
    };
    assert_eq!(port_setting(&env(&[])), None);
    assert_eq!(
        port_setting(&env(&[("MOTE_PORT", "1"), ("MOTE_SERVER_PORT", "x")])),
        Some("x".to_string())
    );
    assert_eq!(server_port_override(&env(&[])), Ok(None));
    assert_eq!(server_port_override(&env(&[("MOTE_PORT", "80")])), Ok(Some(80)));
    assert_eq!(
        server_port_override(&env(&[("MOTE_PORT", "80"), ("MOTE_SERVER_PORT", "+065535")])),
        Ok(Some(65535))
    );
    for bad in ["", "+", "65536", "12a", "-1", " 80", "99999999999999999999"] {
        assert_eq!(
            server_port_override(&env(&[("MOTE_PORT", bad)])),
            Err(format!("Invalid server port override: {}", bad))
        );
    }
    assert_eq!(next_port(80, true), Some(81));
    assert_eq!(next_port(80, false), None);
    assert_eq!(next_port(65535, true), None);
}
