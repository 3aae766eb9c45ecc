use mote_server::agent::run::{
    answer_from, starting_events, Action, AgentLoop, Step, MAX_STEPS_PROMPT,
};
use mote_server::agent::{
    advertised_tool_defs, assistant_result_text, assistant_turn_is_finished,
    extract_last_turn_results, extract_last_user_message, listed_skill_names, permission_for,
    safe_truncate, AgentEvent,
};
use mote_server::config::Permission;
use mote_server::json::Json;
use mote_server::llm::{
    ChatMessage, ChatOptions, ChatResult, Role, StreamEvent, ToolCall, ToolDef,
    ToolExecutionResult, ToolFunction, ToolFunctionDef, Usage,
};
use mote_server::strmap::StrMap;

fn make_user(text: &str) -> ChatMessage {
    ChatMessage::user(text)
}

fn make_assistant(text: &str) -> ChatMessage {
    ChatMessage::assistant_text(text)
}

fn call(id: &str, name: &str, arguments: &str) -> ToolCall {
    ToolCall {
        id: id.to_string(),
        call_type: "function".into(),
        function: ToolFunction { name: name.to_string(), arguments: arguments.to_string() },
    }
}

fn make_tool_call_msg(tool_calls: Vec<(&str, &str)>) -> ChatMessage {
    let calls: Vec<ToolCall> =
        tool_calls.into_iter().map(|(id, name)| call(id, name, "{}")).collect();
    ChatMessage::assistant_tool_calls(calls)
}

fn make_tool_result(tool_call_id: &str, content: &str) -> ChatMessage {
    ChatMessage::tool_result(tool_call_id, content)
}

fn named_tool(name: &str) -> ToolDef {
    ToolDef {
        def_type: "function".into(),
        function: ToolFunctionDef {
            name: name.into(),
            description: "test tool".into(),
            parameters: Json::Object(vec![("type".into(), Json::Text("object".into()))]),
        },
    }
}

fn permissions(entries: &[(&str, Permission)]) -> StrMap<Permission> {
    let mut map = StrMap::new();
    for (name, p) in entries {
        map.insert(name.to_string(), *p);
    }
    map
}

fn answer(
    content: Option<&str>,
    tool_calls: Vec<ToolCall>,
    usage: (u64, u64),
    finish_reason: Option<&str>,
) -> ChatResult {
    ChatResult {
        content: content.map(|c| c.to_string()),
        tool_calls,
        usage: Usage {
            prompt_tokens: usage.0,
            completion_tokens: usage.1,
            total_tokens: usage.0 + usage.1,
        },
        finish_reason: finish_reason.map(|r| r.to_string()),
        reasoning_content: None,
    }
}

/// What a driven loop was seen to do.
struct Seen {
    events: Vec<AgentEvent>,
    requests: usize,
    tool_names: Vec<Vec<String>>,
    max_steps_prompt: bool,
    executed: usize,
    error: Option<String>,
    command: Option<String>,
}

/// Runs a loop to its end: the n-th request is answered by `script(n)`, each
/// tool answers "ok", and permission requests are answered by `allow`.
fn drive(
    max_steps: usize,
    message: &str,
    tools: Vec<ToolDef>,
    permissions: StrMap<Permission>,
    script: &dyn Fn(usize) -> ChatResult,
    allow: Option<bool>,
) -> Seen {
    let (mut agent, begun) = AgentLoop::begin(
        Vec::new(),
        message,
        Vec::new(),
        ChatOptions::default(),
        tools,
        permissions,
        max_steps,
        "/tmp".into(),
    );
    let mut seen = Seen {
        events: begun,
        requests: 0,
        tool_names: Vec::new(),
        max_steps_prompt: false,
        executed: 0,
        error: None,
        command: None,
    };
    let mut step: Step = agent.start_turn(false);
    loop {
        seen.events.append(&mut step.events);
        step = match step.action {
            Action::Stream { messages, options } => {
                seen.tool_names
                    .push(options.tools.iter().map(|t| t.function.name.clone()).collect());
                if messages.iter().any(|m| m.content.as_deref() == Some(MAX_STEPS_PROMPT)) {
                    seen.max_steps_prompt = true;
                }
                seen.requests += 1;
                agent.stream_event(StreamEvent::Done(script(seen.requests)))
            }
            Action::Receive => agent.stream_closed(),
            Action::NextTurn => agent.start_turn(false),
            Action::NextCall => agent.next_call(false),
            Action::AwaitPermission { id } => {
                agent.permission_reply(allow.map(|allowed| (id, allowed)))
            }
            Action::Execute { arguments, .. } => {
                seen.executed += 1;
                seen.command = arguments.text("command");
                agent.tool_finished(Ok(ToolExecutionResult {
                    output: "ok".into(),
                    changes: Vec::new(),
                    rollback_entries: Vec::new(),
                }))
            }
            Action::Abort { error } => {
                seen.error = Some(error);
                return seen;
            }
            Action::Stop => return seen,
        };
    }
}

#[test]
fn test_extract_last_user_message_finds_latest() {
    let history = vec![make_user("first"), make_assistant("ok"), make_user("second")];
    assert_eq!(extract_last_user_message(&history), Some("second".into()));
}

#[test]
fn test_extract_last_user_message_none_when_empty() {
    assert_eq!(extract_last_user_message(&vec![]), None);
}

#[test]
fn test_extract_last_user_message_truncates_long() {
    let long = "a".repeat(150);
    let history = vec![make_user(&long)];
    let result = extract_last_user_message(&history).unwrap();
    assert_eq!(result.len(), 103);
    assert!(result.ends_with("..."));
}

#[test]
fn test_extract_last_turn_results_empty_when_no_tools() {
    let history = vec![make_user("hi"), make_assistant("hello")];
    assert!(extract_last_turn_results(&history).is_empty());
}

#[test]
fn test_advertised_tool_defs_excludes_denied_tools() {
    let tools = vec![named_tool("read"), named_tool("bash")];
    let permissions = permissions(&[("read", Permission::Allow), ("bash", Permission::Deny)]);

    let advertised = advertised_tool_defs(&tools, &permissions);

    assert_eq!(advertised.len(), 1);
    assert_eq!(advertised[0].function.name, "read");
}

#[test]
fn test_assistant_result_text_prefers_final_content() {
    let result = answer(Some("final plain text"), Vec::new(), (0, 0), Some("stop"));
    assert_eq!(assistant_result_text(&result, "partial stream"), "final plain text");
}

#[test]
fn test_assistant_result_text_falls_back_to_streamed_text() {
    let result = answer(None, Vec::new(), (0, 0), Some("stop"));
    assert_eq!(assistant_result_text(&result, "streamed"), "streamed");
}

#[test]
fn test_run_loop_persists_final_assistant_message() {
    let seen = drive(
        2,
        "hello",
        vec![named_tool("read"), named_tool("bash"), named_tool("finish_task")],
        permissions(&[
            ("read", Permission::Allow),
            ("bash", Permission::Deny),
            ("finish_task", Permission::Allow),
        ]),
        &|_| {
            answer(
                None,
                vec![call("call_finish", "finish_task", r#"{"final_answer":"final answer"}"#)],
                (1, 2),
                Some("tool_calls"),
            )
        },
        None,
    );
    let mut done_history = None;
    for event in seen.events {
        if let AgentEvent::Done { history, .. } = event {
            done_history = Some(history);
        }
    }
    let history = done_history.expect("Done event should be emitted");
    assert!(matches!(history[0].role, Role::User));
    assert!(matches!(history.last().unwrap().role, Role::Assistant));
    assert_eq!(history.last().unwrap().content.as_deref(), Some("final answer"));
    assert_eq!(seen.tool_names, vec![vec!["read".to_string(), "finish_task".to_string()]]);
}

#[test]
fn test_run_loop_plain_text_without_finish_reason_continues() {
    let seen = drive(
        2,
        "hi",
        vec![named_tool("read")],
        permissions(&[("read", Permission::Allow)]),
        &|n| match n {
            1 => answer(Some("working..."), Vec::new(), (1, 1), None),
            2 => answer(Some("still working..."), Vec::new(), (1, 1), None),
            _ => answer(
                Some("Maximum steps reached. Summary before continuation."),
                Vec::new(),
                (1, 1),
                Some("stop"),
            ),
        },
        None,
    );
    let mut saw_turn_done = 0;
    let mut terminal = None;
    for event in seen.events {
        match event {
            AgentEvent::TurnDone { .. } => saw_turn_done += 1,
            AgentEvent::Done { content, .. } => terminal = Some(content),
            _ => {}
        }
    }
    assert_eq!(saw_turn_done, 2);
    assert_eq!(
        terminal.as_deref(),
        Some("Maximum steps reached. Summary before continuation.")
    );
    assert_eq!(seen.requests, 3);
}

#[test]
fn test_run_loop_terminal_finish_reason_ends_text_only_turn() {
    let seen = drive(
        10,
        "hi",
        vec![named_tool("read")],
        permissions(&[("read", Permission::Allow)]),
        &|_| answer(Some("all done"), Vec::new(), (1, 1), Some("stop")),
        None,
    );
    let mut done_content = None;
    for event in seen.events {
        match event {
            AgentEvent::Done { content, .. } => done_content = Some(content),
            AgentEvent::TurnDone { .. } => {
                panic!("terminal finish reason should not continue the loop")
            }
            _ => {}
        }
    }
    assert_eq!(done_content.as_deref(), Some("all done"));
    assert_eq!(seen.requests, 1);
}

#[test]
fn test_run_loop_tool_calls_override_terminal_finish_reason() {
    let seen = drive(
        10,
        "hi",
        vec![named_tool("read"), named_tool("finish_task")],
        permissions(&[("read", Permission::Allow), ("finish_task", Permission::Allow)]),
        &|n| match n {
            1 => answer(
                Some("checking"),
                vec![call("call_read", "read", "{}")],
                (1, 1),
                Some("stop"),
            ),
            _ => answer(
                None,
                vec![call("call_finish", "finish_task", r#"{"final_answer":"final answer"}"#)],
                (1, 1),
                Some("tool_calls"),
            ),
        },
        None,
    );
    let mut done_content = None;
    let mut tool_turn_text = None;
    for event in seen.events {
        match event {
            AgentEvent::TurnDone { text, tool_calls } => {
                if !tool_calls.is_empty() {
                    tool_turn_text = Some(text);
                }
            }
            AgentEvent::Done { content, .. } => done_content = Some(content),
            _ => {}
        }
    }
    assert_eq!(tool_turn_text.as_deref(), Some("checking"));
    assert_eq!(done_content.as_deref(), Some("final answer"));
    assert_eq!(seen.requests, 2);
}

#[test]
fn test_run_loop_tool_call_turn_preserves_assistant_text_in_history() {
    let seen = drive(
        10,
        "hi",
        vec![named_tool("read")],
        permissions(&[("read", Permission::Allow)]),
        &|n| match n {
            1 => answer(
                Some("I need to inspect the file first"),
                vec![call("call_read", "read", "{}")],
                (0, 0),
                Some("tool_calls"),
            ),
            _ => answer(Some("The answer after reading."), Vec::new(), (0, 0), Some("stop")),
        },
        None,
    );
    let mut done_history = None;
    for event in seen.events {
        if let AgentEvent::Done { history, .. } = event {
            done_history = Some(history);
        }
    }
    let history = done_history.expect("Done event should include history");
    let tool_call_message = history
        .iter()
        .find(|msg| msg.tool_calls.is_some())
        .expect("tool-call assistant message should be persisted");
    assert_eq!(tool_call_message.content.as_deref(), Some("I need to inspect the file first"));
    assert_eq!(
        history.last().and_then(|msg| msg.content.as_deref()),
        Some("The answer after reading.")
    );
    assert_eq!(seen.requests, 2);
}

#[test]
fn test_run_loop_final_step_disables_tools_and_requests_text_only() {
    let seen = drive(
        1,
        "hi",
        vec![named_tool("read")],
        permissions(&[("read", Permission::Allow)]),
        &|n| match n {
            1 => answer(
                Some("checking"),
                vec![call("call_read", "read", "{}")],
                (0, 0),
                Some("tool_calls"),
            ),
            _ => answer(
                Some("Maximum steps reached. I checked the file and need user continuation."),
                Vec::new(),
                (0, 0),
                Some("stop"),
            ),
        },
        None,
    );
    let mut done_content = None;
    for event in seen.events {
        if let AgentEvent::Done { content, .. } = event {
            done_content = Some(content);
        }
    }
    assert_eq!(seen.requests, 2);
    let counts: Vec<usize> = seen.tool_names.iter().map(|names| names.len()).collect();
    assert_eq!(counts, [1, 0]);
    assert!(seen.max_steps_prompt);
    assert_eq!(
        done_content.as_deref(),
        Some("Maximum steps reached. I checked the file and need user continuation.")
    );
}

#[test]
fn test_run_loop_hard_stops_at_max_steps() {
    let max_steps = 3usize;
    let seen = drive(
        max_steps,
        "go",
        vec![named_tool("read")],
        permissions(&[("read", Permission::Allow)]),
        &|n| {
            answer(
                None,
                vec![call(&format!("call_{}", n), "read", "{}")],
                (1, 1),
                Some("tool_calls"),
            )
        },
        None,
    );
    let mut needs_continuation = None;
    for event in seen.events {
        if let AgentEvent::NeedsContinuation { content, .. } = event {
            needs_continuation = Some(content);
        }
    }
    assert_eq!(needs_continuation.as_deref(), Some("(max steps reached)"));
    assert_eq!(seen.requests, max_steps + 1);
}

#[test]
fn test_extract_last_turn_results_pairs_names_with_results() {
    let history = vec![
        make_user("do it"),
        make_tool_call_msg(vec![("call_1", "read"), ("call_2", "bash")]),
        make_tool_result("call_1", "file contents"),
        make_tool_result("call_2", "Error: not found"),
    ];
    let results = extract_last_turn_results(&history);
    assert_eq!(results.len(), 2);
    assert_eq!(results[0].tool_name, "read");
    assert!(results[0].success);
    assert_eq!(results[1].tool_name, "bash");
    assert!(!results[1].success);
}

#[test]
fn test_extract_last_turn_results_truncates_long_content() {
    let long = "x".repeat(200);
    let history = vec![
        make_user("do it"),
        make_tool_call_msg(vec![("c1", "read")]),
        make_tool_result("c1", &long),
    ];
    let results = extract_last_turn_results(&history);
    assert_eq!(results.len(), 1);
    assert!(results[0].summary.ends_with("..."));
    assert_eq!(results[0].summary.len(), 120);
}

#[test]
fn test_safe_truncate_ascii() {
    assert_eq!(safe_truncate("hello", 3), "hel");
    assert_eq!(safe_truncate("hello", 10), "hello");
    assert_eq!(safe_truncate("hello", 5), "hello");
}

#[test]
fn test_safe_truncate_multibyte() {
    let s = "€€€";
    assert_eq!(safe_truncate(s, 9), "€€€");
    assert_eq!(safe_truncate(s, 6), "€€");
    assert_eq!(safe_truncate(s, 5), "€");
    assert_eq!(safe_truncate(s, 3), "€");
    assert_eq!(safe_truncate(s, 2), "");
}

#[test]
fn test_safe_truncate_empty() {
    assert_eq!(safe_truncate("", 0), "");
    assert_eq!(safe_truncate("", 10), "");
}

#[test]
fn unlisted_tools_need_permission() {
    let p = permissions(&[("read", Permission::Allow)]);
    assert_eq!(permission_for(&p, "read"), Permission::Allow);
    assert_eq!(permission_for(&p, "bash"), Permission::Ask);
}

#[test]
fn a_turn_with_calls_is_not_finished() {
    let with_calls = answer(None, vec![call("c", "read", "{}")], (0, 0), Some("stop"));
    assert!(!assistant_turn_is_finished(&with_calls));
    assert!(assistant_turn_is_finished(&answer(Some("x"), Vec::new(), (0, 0), Some("stop"))));
    assert!(!assistant_turn_is_finished(&answer(Some("x"), Vec::new(), (0, 0), None)));
}

#[test]
fn skills_are_read_from_the_prompt() {
    let layer = "Skills available:\nReview the skills below.\n  alpha — first\n  beta — second\n  gamma\n";
    let names = listed_skill_names(&vec!["other".to_string(), layer.to_string()]);
    assert_eq!(names, vec!["alpha".to_string(), "beta".to_string()]);
}

#[test]
fn tools_wait_for_permission() {
    let script = |n: usize| match n {
        1 => answer(
            None,
            vec![call("c1", "bash", "{\"command\": \"ls\"}")],
            (3, 4),
            Some("tool_calls"),
        ),
        _ => answer(Some("done"), Vec::new(), (5, 6), Some("stop")),
    };
    let asking = permissions(&[("bash", Permission::Ask)]);
    let allowed = drive(5, "go", vec![named_tool("bash")], asking, &script, Some(true));
    assert_eq!(allowed.executed, 1);
    assert_eq!(allowed.command.as_deref(), Some("ls"));
    assert!(allowed.events.iter().any(|e| matches!(
        e,
        AgentEvent::PermissionRequest { id, tool_name, args }
            if id == "perm_c1" && tool_name == "bash"
                && args.text("command").as_deref() == Some("ls")
    )));

    let asking = permissions(&[("bash", Permission::Ask)]);
    let refused = drive(5, "go", vec![named_tool("bash")], asking, &script, Some(false));
    assert_eq!(refused.executed, 0);
    assert!(refused.events.iter().any(|e| matches!(e, AgentEvent::ToolFailed { .. })));
    let tokens = refused.events.iter().find_map(|e| match e {
        AgentEvent::Done { tokens_input, tokens_output, .. } => {
            Some((*tokens_input, *tokens_output))
        }
        _ => None,
    });
    assert_eq!(tokens, Some((8, 10)));
}

#[test]
fn every_call_is_answered_in_the_history() {
    let seen = drive(
        5,
        "go",
        vec![named_tool("read")],
        permissions(&[("read", Permission::Allow), ("bash", Permission::Deny)]),
        &|n| match n {
            1 => answer(
                None,
                vec![call("a", "read", "{}"), call("b", "bash", "{}"), call("c", "nothing", "{}")],
                (0, 0),
                None,
            ),
            _ => answer(Some("done"), Vec::new(), (0, 0), Some("stop")),
        },
        Some(true),
    );
    let history = seen
        .events
        .into_iter()
        .find_map(|e| match e {
            AgentEvent::Done { history, .. } => Some(history),
            _ => None,
        })
        .unwrap();
    let answered: Vec<String> =
        history.iter().filter_map(|m| m.tool_call_id.clone()).collect();
    assert_eq!(answered, vec!["a".to_string(), "b".to_string(), "c".to_string()]);
    assert_eq!(seen.executed, 1);
}

#[test]
fn a_cancelled_loop_ends_at_once() {
    let (mut agent, _) = AgentLoop::begin(
        Vec::new(),
        "hi",
        Vec::new(),
        ChatOptions::default(),
        Vec::new(),
        StrMap::new(),
        3,
        "/tmp".into(),
    );
    let step = agent.start_turn(true);
    assert!(matches!(step.action, Action::Stop));
    assert_eq!(step.events.len(), 1);
    assert!(matches!(step.events[0], AgentEvent::Cancelled { .. }));
}

#[test]
fn a_broken_stream_aborts_the_loop() {
    let (mut agent, _) = AgentLoop::begin(
        vec!["layer".into()],
        "hi",
        vec![make_user("before")],
        ChatOptions::default(),
        Vec::new(),
        StrMap::new(),
        3,
        "/work".into(),
    );
    let step = agent.start_turn_at(false, "2026-01-02 03:04:05");
    let messages = match step.action {
        Action::Stream { messages, .. } => messages,
        _ => panic!("a turn starts with a request"),
    };
    assert_eq!(messages[0].content.as_deref(), Some("layer"));
    assert!(messages.iter().any(|m| m.content.as_deref() == Some("before")));
    assert!(messages
        .iter()
        .any(|m| m.content.as_deref().map_or(false, |c| c.contains("2026-01-02 03:04:05"))));
    let step = agent.stream_event(StreamEvent::Chunk("par".into()));
    assert!(matches!(step.action, Action::Receive));
    let step = agent.stream_failed("boom".into());
    assert!(matches!(step.action, Action::Abort { ref error } if error == "boom"));
}

#[test]
fn parsed_arguments_decide() {
    let args = |key: &str, value: &str| -> Result<Json, String> {
        Ok(Json::Object(vec![(key.to_string(), Json::Text(value.to_string()))]))
    };
    let broken: Result<Json, String> = Err("bad".into());
    assert_eq!(answer_from(&args("final_answer", "yes"), &Some("text".into())), "yes");
    assert_eq!(answer_from(&args("other", "yes"), &Some("text".into())), "text");
    assert_eq!(answer_from(&broken, &Some("text".into())), "text");
    assert_eq!(answer_from(&broken, &None), "(task finished)");

    let skill = call("c1", "use_skill", "");
    let events = starting_events(&skill, &args("skill_name", "rust"));
    assert_eq!(events.len(), 3);
    assert!(matches!(&events[0], AgentEvent::SkillSelected { name } if name == "rust"));
    assert!(matches!(&events[1], AgentEvent::ReasoningDelta(s) if s == "[Skill selected: rust]"));
    assert!(matches!(&events[2], AgentEvent::ToolStarted { id, .. } if id == "c1"));
    assert_eq!(starting_events(&skill, &broken).len(), 1);
    assert_eq!(starting_events(&call("c2", "read", ""), &args("skill_name", "rust")).len(), 1);
}

#[test]
fn calls_are_taken_up_with_parsed_arguments() {
    let begin = || {
        let (mut agent, _) = AgentLoop::begin(
            Vec::new(),
            "go",
            Vec::new(),
            ChatOptions::default(),
            vec![named_tool("read")],
            permissions(&[("read", Permission::Allow)]),
            5,
            "/tmp".into(),
        );
        agent.start_turn(false);
        let asked = answer(None, vec![call("c1", "read", "unread")], (0, 0), None);
        agent.stream_event(StreamEvent::Done(asked));
        agent
    };
    let step = begin().next_parsed_call(false, Ok(Json::Bool(true)));
    assert!(matches!(
        step.action,
        Action::Execute { tool: 0, arguments: Json::Bool(true) }
    ));
    let step = begin().next_parsed_call(false, Err("bad".into()));
    assert!(matches!(step.action, Action::NextCall));
    assert!(step.events.iter().any(|e| matches!(
        e,
        AgentEvent::ToolFailed { error, .. } if error == "Failed to parse arguments: bad"
    )));
    let step = begin().next_parsed_call(true, Ok(Json::Null));
    assert!(matches!(step.action, Action::Stop));
}
