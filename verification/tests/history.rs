use mote_server::clock::Timestamp;
use mote_server::history::{
    newest_first, parse, parse_body, parse_message_heading, serialize, FileEntry,
};
use mote_server::llm::Role;
use mote_server::session::Message;

fn yaml_of(text: &str) -> serde_yaml::Value {
    serde_yaml::from_str(text).unwrap()
}

fn sample_content() -> &'static str {
    "---\n\
     id: chat-20260525-233658\n\
     created: 2026-05-25T23:36:58.084098Z\n\
     updated: 2026-05-25T23:36:58.084098Z\n\
     model_provider: ollama\n\
     model_id: deepseek-r1:8b\n\
     tokens_input: 10\n\
     tokens_output: 5\n\
     version: 0.1.0\n\
     ---\n\
     \n\
     ## User — 23:36:58\n\
     What is 99-1?\n\
     \n\
     ## Assistant — 23:36:59\n\
     98\n"
}

#[test]
fn test_parse_roundtrip() {
    let file = parse(sample_content()).unwrap();
    let meta = yaml_of(&file.yaml);
    let messages = file.messages;
    assert_eq!(meta["id"].as_str(), Some("chat-20260525-233658"));
    assert_eq!(meta["model_provider"].as_str(), Some("ollama"));
    assert_eq!(meta["tokens_input"].as_u64(), Some(10));
    assert_eq!(messages.len(), 2);
    assert_eq!(messages[0].role, Role::User);
    assert_eq!(messages[0].content, "What is 99-1?");
    assert_eq!(messages[1].role, Role::Assistant);
    assert_eq!(messages[1].content, "98");

    let yaml = serde_yaml::to_string(&meta).unwrap();
    let serialized = serialize(&yaml, &messages);
    let file2 = parse(&serialized).unwrap();
    let meta2 = yaml_of(&file2.yaml);
    assert_eq!(meta2["id"], meta["id"]);
    assert_eq!(meta2["tokens_input"], meta["tokens_input"]);
    assert_eq!(file2.messages.len(), messages.len());
    assert_eq!(file2.messages[0].content, messages[0].content);
}

#[test]
fn test_parse_missing_frontmatter() {
    assert!(parse("no frontmatter here").is_err());
}

#[test]
fn test_parse_empty_body() {
    let content = "---\n\
                   id: test\n\
                   created: 2026-05-25T00:00:00Z\n\
                   updated: 2026-05-25T00:00:00Z\n\
                   model_provider: test\n\
                   model_id: test\n\
                   tokens_input: 0\n\
                   tokens_output: 0\n\
                   version: 0.1.0\n\
                   ---\n";
    let file = parse(content).unwrap();
    assert_eq!(yaml_of(&file.yaml)["id"].as_str(), Some("test"));
    assert!(file.messages.is_empty());
}

#[test]
fn test_parse_multi_line_content() {
    let content = "---\n\
                   id: m\ncreated: 2026-01-01T00:00:00Z\nupdated: 2026-01-01T00:00:00Z\n\
                   model_provider: t\nmodel_id: t\n\
                   tokens_input: 0\ntokens_output: 0\nversion: 0.1.0\n\
                   ---\n\
                   \n\
                   ## User — 00:00:00\n\
                   Line 1\n\
                   Line 2\n\
                   \n\
                   ## Assistant — 00:00:01\n\
                   Response\n";
    let msgs = parse(content).unwrap().messages;
    assert_eq!(msgs.len(), 2);
    assert_eq!(msgs[0].content, "Line 1\nLine 2");
    assert_eq!(msgs[1].content, "Response");
}

#[test]
fn test_parse_windows_line_endings() {
    let content = "---\r\n\
                   id: w\r\ncreated: 2026-01-01T00:00:00Z\r\nupdated: 2026-01-01T00:00:00Z\r\n\
                   model_provider: t\r\nmodel_id: t\r\n\
                   tokens_input: 0\r\ntokens_output: 0\r\nversion: 0.1.0\r\n\
                   ---\r\n\
                   \r\n\
                   ## User — 00:00:00\r\n\
                   Hello\r\n";
    let msgs = parse(content).unwrap().messages;
    assert_eq!(msgs.len(), 1);
    assert_eq!(msgs[0].content, "Hello");
}

#[test]
fn test_parse_leading_trailing_whitespace() {
    let content = "---\n\
                   id: w\ncreated: 2026-01-01T00:00:00Z\nupdated: 2026-01-01T00:00:00Z\n\
                   model_provider: t\nmodel_id: t\n\
                   tokens_input: 0\ntokens_output: 0\nversion: 0.1.0\n\
                   ---\n\
                   \n  \n\
                   ## User — 00:00:00\n\
                   \n  \n  Hello  \n  \n\
                   \n  \n\
                   ## Assistant — 00:00:01\n\
                   World\n";
    let msgs = parse(content).unwrap().messages;
    assert_eq!(msgs.len(), 2);
    assert_eq!(msgs[0].content.trim(), "Hello");
    assert_eq!(msgs[1].content, "World");
}

#[test]
fn test_parse_unknown_heading_flushes_previous_message() {
    let content = "---\n\
                   id: x\ncreated: 2026-01-01T00:00:00Z\nupdated: 2026-01-01T00:00:00Z\n\
                   model_provider: t\nmodel_id: t\n\
                   tokens_input: 0\ntokens_output: 0\nversion: 0.1.0\n\
                   ---\n\
                   \n\
                   ## User — 00:00:00\n\
                   Hello\n\
                   ## Tool — 00:00:01\n\
                   ignored\n\
                   ## Assistant — 00:00:02\n\
                   World\n";
    let msgs = parse(content).unwrap().messages;
    assert_eq!(msgs.len(), 2);
    assert_eq!(msgs[0].role, Role::User);
    assert_eq!(msgs[0].content, "Hello");
    assert_eq!(msgs[1].role, Role::Assistant);
    assert_eq!(msgs[1].content, "World");
}

#[test]
fn test_parse_unknown_heading_does_not_append_to_previous_message() {
    let body = "## User — 00:00:00\nHello\n## System — 00:00:01\nignored\n";
    let msgs = parse_body(body);
    assert_eq!(msgs.len(), 1);
    assert_eq!(msgs[0].content, "Hello");
}

#[test]
fn test_serialize_preserves_content() {
    let msgs = vec![
        Message::new(Role::User, "Multi\nline\ninput".into()),
        Message::new(Role::Assistant, "Code:\n```rust\nfn main() {}\n```".into()),
    ];
    let yaml = "id: test\nmodel_provider: ollama\nmodel_id: r1\ntokens_input: 50\ntokens_output: 30\nversion: 0.1.0\n";
    let out = serialize(yaml, &msgs);
    let file = parse(&out).unwrap();
    assert_eq!(yaml_of(&file.yaml)["id"].as_str(), Some("test"));
    assert_eq!(file.messages.len(), 2);
    assert_eq!(file.messages[0].content, "Multi\nline\ninput");
    assert!(file.messages[1].content.contains("fn main()"));
}

#[test]
fn broken_files_are_reported() {
    assert_eq!(parse("id: x").err().unwrap(), "Session file must start with `---`");
    assert_eq!(
        parse("---\nid: x\n").err().unwrap(),
        "Session file missing closing `---` after frontmatter"
    );
}

#[test]
fn headings_are_dated() {
    let messages = vec![Message {
        role: Role::User,
        content: "  hi  ".into(),
        timestamp: Timestamp { secs: 3661, nanos: 5 },
    }];
    let out = serialize("id: x\n", &messages);
    assert_eq!(out, "---\nid: x\n---\n\n## User — 01:01:01\n  hi");
    let back = parse(&out).unwrap();
    assert_eq!(back.messages.len(), 1);
    assert_eq!(back.messages[0].content, "hi");
}

#[test]
fn dates_before_the_epoch_are_written() {
    let messages = vec![Message {
        role: Role::Assistant,
        content: "x".into(),
        timestamp: Timestamp { secs: -1, nanos: 0 },
    }];
    assert!(serialize("", &messages).contains("## Assistant — 23:59:59\n"));
}

#[test]
fn only_headings_with_a_separator_count() {
    assert_eq!(parse_message_heading("## User — 00:00:00"), Some(Some(Role::User)));
    assert_eq!(parse_message_heading("## Tool — 00:00:00"), Some(None));
    assert_eq!(parse_message_heading("## Notes"), None);
    assert_eq!(parse_message_heading("# User — 00:00:00"), None);
}

#[test]
fn sessions_are_listed_newest_first() {
    let entry = |name: &str, secs: Option<i64>| FileEntry {
        name: name.to_string(),
        modified: secs.map(|secs| Timestamp { secs, nanos: 0 }),
    };
    let list = newest_first(vec![
        entry("a.md", Some(5)),
        entry("notes.txt", Some(9)),
        entry("b.md", None),
        entry("c.md", Some(7)),
        entry("d.md", Some(5)),
        entry(".md", Some(8)),
    ]);
    let names: Vec<&str> = list.iter().map(|e| e.name.as_str()).collect();
    assert_eq!(names, ["c.md", "d.md", "a.md", "b.md"]);
}
