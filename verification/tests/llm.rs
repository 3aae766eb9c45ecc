use mote_server::json::Json;
use mote_server::llm::{
    ChatMessage, ChatOptions, Role, ToolCall, ToolDef, ToolFunction, ToolFunctionDef, Usage,
};

#[test]
fn test_system_message() {
    let msg = ChatMessage::system("You are a helpful assistant.");
    assert_eq!(msg.role, Role::System);
    assert_eq!(msg.content, Some("You are a helpful assistant.".into()));
    assert!(msg.tool_calls.is_none());
    assert!(msg.tool_call_id.is_none());
}

#[test]
fn test_user_message() {
    let msg = ChatMessage::user("Hello");
    assert_eq!(msg.role, Role::User);
    assert_eq!(msg.content, Some("Hello".into()));
}

#[test]
fn test_tool_result_message() {
    let msg = ChatMessage::tool_result("call_123", "some output");
    assert_eq!(msg.role, Role::Tool);
    assert_eq!(msg.content, Some("some output".into()));
    assert_eq!(msg.tool_call_id, Some("call_123".into()));
}

#[test]
fn test_assistant_tool_calls() {
    let calls = vec![ToolCall {
        id: "call_1".into(),
        call_type: "function".into(),
        function: ToolFunction {
            name: "read".into(),
            arguments: r#"{"file_path": "test.txt"}"#.into(),
        },
    }];
    let msg = ChatMessage::assistant_tool_calls(calls);
    assert_eq!(msg.role, Role::Assistant);
    assert!(msg.content.is_none());
    assert!(msg.tool_calls.is_some());
    assert_eq!(msg.tool_calls.as_ref().unwrap().len(), 1);
    assert_eq!(msg.tool_calls.as_ref().unwrap()[0].function.name, "read");
}

#[test]
fn test_chat_options_default() {
    let opts = ChatOptions::default();
    assert_eq!(f32::from_bits(opts.temperature), 0.3);
    assert_eq!(opts.max_tokens, 4096);
    assert!(opts.tools.is_empty());
}

#[test]
fn test_tool_def_serialization() {
    let def = ToolDef {
        def_type: "function".into(),
        function: ToolFunctionDef {
            name: "test_tool".into(),
            description: "A test tool".into(),
            parameters: Json::Object(vec![
                ("type".into(), Json::Text("object".into())),
                ("properties".into(), Json::Object(Vec::new())),
            ]),
        },
    };
    let json = def.to_json();
    assert_eq!(json.text("type").as_deref(), Some("function"));
    assert_eq!(json.get("function").unwrap().text("name").as_deref(), Some("test_tool"));
}

#[test]
fn test_chat_message_serialization_roundtrip() {
    let msg = ChatMessage::user("hello world");
    let json = msg.to_json();
    assert_eq!(json.text("role").as_deref(), Some("user"));
    assert_eq!(json.text("content").as_deref(), Some("hello world"));
    assert!(json.get("tool_calls").is_none());
}

#[test]
fn test_tool_call_message_omits_content() {
    let calls = vec![ToolCall {
        id: "c1".into(),
        call_type: "function".into(),
        function: ToolFunction { name: "bash".into(), arguments: "{}".into() },
    }];
    let msg = ChatMessage::assistant_tool_calls(calls);
    let json = msg.to_json();
    assert_eq!(json.text("role").as_deref(), Some("assistant"));
    assert!(json.get("content").is_none());
    assert!(matches!(json.get("tool_calls"), Some(Json::List(_))));
}

#[test]
fn test_role_display() {
    assert_eq!(Role::System.display(), "system");
    assert_eq!(Role::User.display(), "user");
    assert_eq!(Role::Assistant.display(), "assistant");
    assert_eq!(Role::Tool.display(), "tool");
}

#[test]
fn test_usage_default() {
    let u = Usage::default();
    assert_eq!(u.prompt_tokens, 0);
    assert_eq!(u.completion_tokens, 0);
}
