use mote_server::clock::{stamp_of, told_time, Timestamp};
use mote_server::llm::{ChatMessage, Role, ToolCall, ToolFunction, Usage};
use mote_server::session::{summarize, Message, Session, SessionMeta, VERSION};

fn at(secs: i64) -> Timestamp {
    Timestamp { secs, nanos: 0 }
}

#[test]
fn test_new_session() {
    let s = Session::new("ollama".into(), "deepseek-r1:8b".into());
    assert!(s.id.starts_with("chat-"));
    assert_eq!(s.model_provider, "ollama");
    assert!(s.messages.is_empty());
}

#[test]
fn test_add_messages() {
    let mut s = Session::new("deepseek".into(), "deepseek-chat".into());
    s.add_user("Hello".into());
    assert_eq!(s.messages.len(), 1);
    assert_eq!(s.messages[0].role, Role::User);
    assert_eq!(s.messages[0].content, "Hello");

    s.add_assistant(
        "Hi!".into(),
        &Usage { prompt_tokens: 10, completion_tokens: 5, total_tokens: 15 },
    );
    assert_eq!(s.messages.len(), 2);
    assert_eq!(s.tokens_input, 10);
    assert_eq!(s.tokens_output, 5);
}

#[test]
fn test_chat_messages() {
    let mut s = Session::new("test".into(), "test-model".into());
    s.add_user("Hello".into());
    let chat = s.chat_messages();
    assert_eq!(chat.len(), 1);
    assert_eq!(chat[0].role, Role::User);
    assert_eq!(chat[0].content, Some("Hello".to_string()));
}

#[test]
fn test_meta_roundtrip() {
    let s = Session::new("ollama".into(), "r1".into());
    let meta = s.meta();
    assert_eq!(meta.model_provider, "ollama");
    assert_eq!(meta.model_id, "r1");
    assert_eq!(meta.version, VERSION);
    assert_eq!(meta.version, "0.1.0");
}

#[test]
fn test_from_meta_restores_state() {
    let meta = SessionMeta {
        id: "chat-test".into(),
        created: at(1),
        updated: at(2),
        model_provider: "ollama".into(),
        model_id: "r1".into(),
        tokens_input: 100,
        tokens_output: 50,
        version: "0.1.0".into(),
        summary: None,
        compaction: None,
    };
    let msgs = vec![Message::new(Role::User, "Hello".into())];
    let s = Session::from_meta(meta, msgs);
    assert_eq!(s.id, "chat-test");
    assert_eq!(s.tokens_input, 100);
    assert_eq!(s.messages.len(), 1);
}

#[test]
fn test_from_chat_history_skips_internal_tool_calls_and_results() {
    let tool_call = ToolCall {
        id: "call_1".into(),
        call_type: "function".into(),
        function: ToolFunction { name: "read".into(), arguments: "{}".into() },
    };
    let history = vec![
        ChatMessage::user("please read"),
        ChatMessage::assistant_tool_calls(vec![tool_call]),
        ChatMessage::tool_result("call_1", "file contents"),
        ChatMessage::assistant_text("done"),
    ];

    let session = Session::from_chat_history("model", "provider", "default", 1, 2, &history);

    assert_eq!(session.messages.len(), 2);
    assert_eq!(session.messages[0].content, "please read");
    assert_eq!(session.messages[1].content, "done");
}

#[test]
fn a_session_is_summed_up_by_its_first_request() {
    let history = vec![
        ChatMessage::system("be nice"),
        ChatMessage::user("one two three four five six seven eight nine ten"),
        ChatMessage::user("later"),
    ];
    let session = Session::from_chat_history("model", "provider", "default", 0, 0, &history);
    assert_eq!(session.summary.as_deref(), Some("one two three four five six seven eight..."));
    assert_eq!(summarize("  just \n three  words "), "just three words");
    assert_eq!(
        Session::summary_from_messages(&vec![Message::new(Role::Assistant, "x".into())]),
        None
    );
}

#[test]
fn identifiers_are_dated() {
    let t = Timestamp { secs: 1_748_216_218, nanos: 84_098_000 };
    assert_eq!(stamp_of(t), "20250525-233658084098");
    assert_eq!(told_time(t), "2025-05-25T23:36:58.084098+00:00");
    let out_of_range = Timestamp { secs: i64::MAX, nanos: 0 };
    assert_eq!(stamp_of(out_of_range), "");
    assert_eq!(told_time(out_of_range), "");
}

#[test]
fn sessions_are_restored_from_what_their_files_say() {
    let mut s = Session::new("ollama".into(), "r1".into());
    s.add_user("How many files are there?".into());
    s.tokens_input = 7;
    s.summary = Some("How many files are there?".into());
    let restored = Session::from_meta(s.meta(), vec![]);
    assert_eq!(restored.id, s.id);
    assert_eq!(restored.created, s.created);
    assert_eq!(restored.model_provider, "ollama");
    assert_eq!(restored.model_id, "r1");
    assert_eq!(restored.tokens_input, 7);
    assert_eq!(restored.tokens_output, 0);
    assert_eq!(restored.summary, Some("How many files are there?".to_string()));
    assert!(restored.compaction.is_none());
    assert!(restored.messages.is_empty());
}
