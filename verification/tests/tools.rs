use mote_server::json::Json;
use mote_server::llm::{RollbackKind, ToolDef};
use mote_server::paths::{is_within, join_path, static_glob_prefix};
use mote_server::protocol::{DiffLineKind, FileChangeKind};
use mote_server::tools::defs::{
    build_augmented_tools, build_subagent_tools, builtin_tools, BashTool, DeleteTool, EditTool,
    FinishTaskTool, GlobTool, GrepTool, ReadTool, SubagentTool, ToolContext, UseSkillTool,
    WriteTool,
};
use mote_server::tools::{
    compute_modified_file_change, path_in_workspace, preferred_grep_backend_with, truncate_output,
    validate_path_in_workspace, GrepBackend, MAX_OUTPUT_BYTES,
};

fn args(members: &[(&str, &str)]) -> Json {
    Json::Object(members.iter().map(|(k, v)| (k.to_string(), Json::Text(v.to_string()))).collect())
}

fn required(def: &ToolDef) -> Vec<String> {
    match def.function.parameters.get("required") {
        Some(Json::List(items)) => items
            .iter()
            .map(|i| match i {
                Json::Text(s) => s.clone(),
                _ => panic!("names are texts"),
            })
            .collect(),
        _ => panic!("required arguments are a list"),
    }
}

#[test]
fn test_read_file() {
    let tool = ReadTool::new("/ws".into());
    let plan = tool.plan(&args(&[("file_path", "test.txt")])).unwrap();
    assert_eq!(plan.path, "/ws/test.txt");
    let result = ReadTool::report("hello\nworld\n".into(), plan.offset, plan.limit);
    assert_eq!(result.output, "hello\nworld\n");
}

#[test]
fn test_read_with_offset() {
    let tool = ReadTool::new("/ws".into());
    let mut asked = args(&[("file_path", "lines.txt")]);
    if let Json::Object(members) = &mut asked {
        members.push(("offset".into(), Json::UInt(2)));
        members.push(("limit".into(), Json::UInt(3)));
    }
    let plan = tool.plan(&asked).unwrap();
    let result = ReadTool::report("a\nb\nc\nd\ne\n".into(), plan.offset, plan.limit);
    assert_eq!(result.output, "b\nc\nd");
}

#[test]
fn test_write_file() {
    let tool = WriteTool::new("/ws".into());
    let plan = tool
        .plan(&args(&[("file_path", "new.txt"), ("content", "test content")]))
        .unwrap();
    assert_eq!(plan.path, "/ws/new.txt");
    assert_eq!(plan.content, "test content");
    let result = WriteTool::report(&plan.path, None, &plan.content);
    assert!(result.output.contains("Written"));
    assert_eq!(result.changes.len(), 1);
    assert!(matches!(result.changes[0].kind, FileChangeKind::Added));
}

#[test]
fn test_write_rejects_outside_workspace_abs_missing_parent() {
    let tool = WriteTool::new("/ws".into());
    let plan = tool
        .plan(&args(&[("file_path", "/elsewhere/x/y/new.txt"), ("content", "blocked")]))
        .unwrap();
    assert_eq!(plan.path, "/elsewhere/x/y/new.txt");
    let error =
        validate_path_in_workspace(&plan.path, "/ws", plan.path.clone(), "/ws").unwrap_err();
    assert_eq!(error, "Path '/elsewhere/x/y/new.txt' is outside the workspace '/ws'");
}

#[test]
fn test_edit_file() {
    let tool = EditTool::new("/ws".into());
    let plan = tool
        .plan(&args(&[
            ("file_path", "edit.txt"),
            ("old_string", "foo bar"),
            ("new_string", "baz qux"),
        ]))
        .unwrap();
    let content =
        EditTool::edited(&plan.path, "hello world\nfoo bar\n", &plan.old, &plan.new).unwrap();
    assert_eq!(content, "hello world\nbaz qux\n");
    let after = EditTool::edited(&plan.path, &content, "baz qux", "z").unwrap();
    let result = EditTool::report(&plan.path, content, &after);
    assert_eq!(result.changes.len(), 1);
    assert!(matches!(result.changes[0].kind, FileChangeKind::Modified));
}

#[test]
fn test_edit_diff_focuses_changed_hunk_after_long_context() {
    let mut content = String::new();
    for i in 0..80 {
        content.push_str(&format!("context {i}\n"));
    }
    content.push_str("target line\n");
    let after =
        EditTool::edited("/ws/long.txt", &content, "target line", "replacement line").unwrap();
    let result = EditTool::report("/ws/long.txt", content, &after);

    assert_eq!(result.changes.len(), 1);
    let diff_lines = &result.changes[0].diff_lines;
    assert!(diff_lines
        .iter()
        .any(|line| matches!(line.kind, DiffLineKind::Removed) && line.content == "target line"));
    assert!(diff_lines
        .iter()
        .any(|line| matches!(line.kind, DiffLineKind::Added) && line.content == "replacement line"));
}

#[test]
fn test_edit_not_found() {
    assert!(EditTool::edited("/ws/edit.txt", "hello", "nonexistent", "x").is_err());
}

#[test]
fn test_glob_matches() {
    let tool = GlobTool::new("/ws".into());
    let plan = tool.plan(&args(&[("pattern", "*.rs")])).unwrap();
    assert_eq!(plan.pattern, "/ws/*.rs");
    let found = vec!["/ws/a.rs".to_string(), "/ws/b.rs".to_string()];
    let result = GlobTool::report(&found, "/ws");
    assert!(result.output.contains("a.rs"));
    assert!(result.output.contains("b.rs"));
    assert!(!result.output.contains("c.txt"));
}

#[test]
fn test_glob_no_matches() {
    let result = GlobTool::report(&vec![], "/ws");
    assert_eq!(result.output, "No matches found.");
}

#[test]
fn test_glob_rejects_outside_workspace() {
    let tool = GlobTool::new("/ws".into());
    let plan = tool.plan(&args(&[("pattern", "/elsewhere/*.rs")])).unwrap();
    assert_eq!(plan.prefix, "/elsewhere");
    assert!(validate_path_in_workspace(&plan.pattern, "/ws", plan.prefix, "/ws").is_err());
}

#[test]
fn test_grep_matches() {
    let result =
        GrepTool::report("/ws/search.txt:1:hello world\n/ws/search.txt:3:hello again\n".into());
    assert!(result.output.contains("hello world"));
    assert!(result.output.contains("hello again"));
    assert_eq!(GrepTool::report(String::new()).output, "No matches found.");
}

#[test]
fn test_grep_rejects_outside_workspace_path() {
    let tool = GrepTool::new("/ws".into());
    let plan = tool.plan(&args(&[("pattern", "hello"), ("path", "/elsewhere")])).unwrap();
    assert_eq!(plan.dir, "/elsewhere");
    assert!(validate_path_in_workspace(&plan.dir, "/ws", plan.dir.clone(), "/ws").is_err());
}

#[test]
fn test_preferred_grep_backend_prefers_rg_when_available() {
    let backend = preferred_grep_backend_with(|name| name == "rg");
    assert_eq!(backend, GrepBackend::Ripgrep);
}

#[test]
fn test_preferred_grep_backend_falls_back_to_grep_when_rg_missing() {
    let backend = preferred_grep_backend_with(|_| false);
    assert_eq!(backend, GrepBackend::Grep);
}

#[test]
fn test_bash_echo() {
    let tool = BashTool::new("/ws".into());
    let plan = tool.plan(&args(&[("command", "echo hello")])).unwrap();
    assert_eq!(plan.command, "echo hello");
    let result = BashTool::report("hello\n", "", true, Some(0));
    assert_eq!(result.output.trim(), "hello");
}

#[test]
fn test_bash_exit_code() {
    let result = BashTool::report("", "", false, Some(42));
    assert!(result.output.contains("exit code: 42"));
}

#[test]
fn test_delete_file() {
    let tool = DeleteTool::new("/ws".into());
    let path = tool.plan(&args(&[("file_path", "dead.txt")])).unwrap();
    assert_eq!(path, "/ws/dead.txt");
    assert!(DeleteTool::check(&path, false).is_ok());
    let result = DeleteTool::report(&path, "bye".into());
    assert_eq!(result.changes.len(), 1);
    assert!(matches!(result.changes[0].kind, FileChangeKind::Removed));
}

#[test]
fn test_delete_directory_rejected() {
    assert_eq!(
        DeleteTool::check("/ws/dir", true).unwrap_err(),
        "Refusing to delete directory /ws/dir (file-only delete)"
    );
}

#[test]
fn test_tool_def_read() {
    let def = ReadTool::new("/ws".into()).def();
    assert_eq!(def.function.name, "read");
    assert!(def.function.description.contains("file"));
    assert!(!required(&def).is_empty());
}

#[test]
fn test_tool_def_write() {
    let def = WriteTool::new("/ws".into()).def();
    assert_eq!(def.function.name, "write");
    assert!(required(&def).contains(&"content".to_string()));
}

#[test]
fn test_subagent_tool_def() {
    let tool = SubagentTool::new(ToolContext { workspace: "/ws".into() });
    let def = tool.def();
    assert_eq!(def.function.name, "subagent");
    assert!(def.function.description.contains("agent"));
    assert!(required(&def).contains(&"agent".to_string()));
    assert!(required(&def).contains(&"task".to_string()));
}

#[test]
fn test_subagent_tool_executes_runner() {
    let tool = SubagentTool::new(ToolContext { workspace: "/ws".into() });
    let plan = tool.plan(&args(&[("agent", "review"), ("task", "check")])).unwrap();
    assert_eq!(
        format!("mock result for agent={}, task={}", plan.agent, plan.task),
        "mock result for agent=review, task=check"
    );
    assert_eq!(tool.plan(&args(&[("agent", "@review"), ("task", "x")])).unwrap().agent, "review");
    assert_eq!(tool.plan(&args(&[("task", "x")])).err().unwrap(), "Missing 'agent'");
    assert_eq!(tool.plan(&args(&[("agent", "x")])).err().unwrap(), "Missing 'task'");
}

#[test]
fn test_use_skill_tool_def() {
    let def = UseSkillTool.def();
    assert_eq!(def.function.name, "use_skill");
    assert!(required(&def).contains(&"skill_name".to_string()));
}

#[test]
fn test_use_skill_rejects_bad_name() {
    let err = UseSkillTool.plan(&args(&[("skill_name", "../../etc/passwd")])).unwrap_err();
    assert!(err.contains("Invalid skill name"), "Error should mention invalid name: {err}");
    assert_eq!(UseSkillTool.plan(&args(&[("skill_name", "größe-2_x")])).unwrap(), "größe-2_x");
}

#[test]
fn test_use_skill_returns_body_without_frontmatter() {
    let content = r#"---
name: test-skill
description: A test skill
---
Actual skill content here."#;
    assert_eq!(UseSkillTool::report("test-skill", content).output, "Actual skill content here.");
    assert_eq!(UseSkillTool::report("e", "---\na: b\n---\n").output, "[Skill 'e' has no content]");
}

#[test]
fn test_use_skill_not_found_error() {
    assert_eq!(
        UseSkillTool::not_found("nonexistent-skill-xyz", "/skills"),
        "Skill 'nonexistent-skill-xyz' not found at /skills"
    );
}

#[test]
fn test_truncate_output_short() {
    let short = "hello world".to_string();
    assert_eq!(truncate_output(short.clone()), short);
}

#[test]
fn test_truncate_output_long() {
    let long = "x".repeat(MAX_OUTPUT_BYTES + 1000);
    let result = truncate_output(long.clone());
    assert!(result.len() < long.len());
    assert!(result.contains("[output truncated"));
    assert!(result.contains(&format!("{} bytes total", long.len())));
}

#[test]
fn test_truncate_output_exact_boundary() {
    let exact = "y".repeat(MAX_OUTPUT_BYTES);
    assert_eq!(truncate_output(exact.clone()), exact);
}

#[test]
fn missing_arguments_are_reported() {
    let none = args(&[]);
    assert_eq!(ReadTool::new("/w".into()).plan(&none).err().unwrap(), "Missing file_path");
    assert_eq!(DeleteTool::new("/w".into()).plan(&none).err().unwrap(), "Missing file_path");
    let path = args(&[("file_path", "x")]);
    assert_eq!(WriteTool::new("/w".into()).plan(&path).err().unwrap(), "Missing content");
    assert_eq!(EditTool::new("/w".into()).plan(&path).err().unwrap(), "Missing old_string");
    assert!(GlobTool::new("/w".into()).plan(&none).is_err());
    assert!(GrepTool::new("/w".into()).plan(&none).is_err());
    assert!(BashTool::new("/w".into()).plan(&none).is_err());
    assert_eq!(UseSkillTool.plan(&none).err().unwrap(), "Missing 'skill_name'");
}

#[test]
fn tools_can_be_undone() {
    let added = WriteTool::report("/w/a", None, "new");
    assert_eq!(added.rollback_entries.len(), 1);
    assert_eq!(added.rollback_entries[0].kind, RollbackKind::Added);
    assert!(added.rollback_entries[0].before_content.is_none());
    let changed = WriteTool::report("/w/a", Some("old".into()), "new");
    assert_eq!(changed.rollback_entries[0].kind, RollbackKind::Modified);
    assert_eq!(changed.rollback_entries[0].before_content.as_deref(), Some("old"));
    assert_eq!(
        changed.rollback_entries[0].expected_after_hash,
        added.rollback_entries[0].expected_after_hash
    );
    let removed = DeleteTool::report("/w/a", "old".into());
    assert_eq!(removed.rollback_entries[0].kind, RollbackKind::Removed);
    assert_eq!(removed.output, "Deleted /w/a");
}

#[test]
fn written_bytes_are_counted() {
    assert_eq!(WriteTool::report("/w/a", None, "a€").output, "Written 4 bytes to /w/a");
}

#[test]
fn unchanged_files_have_no_diff() {
    assert!(compute_modified_file_change("/w/a", "same\n", "same\n").is_none());
    let change = compute_modified_file_change("/w/a", "one\ntwo\n", "one\nthree\n").unwrap();
    assert_eq!(change.path, "/w/a");
    assert!(!change.truncated);
    let shown: Vec<(DiffLineKind, &str)> =
        change.diff_lines.iter().map(|l| (l.kind, l.content.as_str())).collect();
    assert_eq!(
        shown,
        vec![
            (DiffLineKind::Context, "one"),
            (DiffLineKind::Removed, "two"),
            (DiffLineKind::Added, "three"),
        ]
    );
}

#[test]
fn edits_replace_the_first_place_only() {
    assert_eq!(EditTool::edited("/w/a", "x y x", "x", "z").unwrap(), "z y x");
}

#[test]
fn commands_report_what_they_print() {
    assert_eq!(BashTool::report("", "", true, Some(0)).output, "(no output)");
    let both = BashTool::report("out", "err", false, None);
    assert!(both.output.contains("out"));
    assert!(both.output.contains("err"));
    assert!(both.output.contains("[exit code: -1]"));
    assert_eq!(BashTool::timed_out(30).output, "[command timed out after 30s]");
}

#[test]
fn grep_commands_follow_the_backend() {
    let rg = GrepTool::command(GrepBackend::Ripgrep, "p", "/w", &Some("*.rs".into()));
    assert_eq!(rg[0], "rg");
    assert!(rg.contains(&"--glob".to_string()));
    let grep = GrepTool::command(GrepBackend::Grep, "p", "/w", &None);
    assert_eq!(grep, vec!["grep", "-rn", "-i", "-E", "p", "/w"]);
}

#[test]
fn paths_are_compared_by_components() {
    assert!(is_within("/ws/a/b", "/ws"));
    assert!(is_within("/ws", "/ws/"));
    assert!(!is_within("/wsx/a", "/ws"));
    assert_eq!(join_path("/ws", "a/b"), "/ws/a/b");
    assert_eq!(join_path("/ws", "/abs"), "/abs");
    assert_eq!(static_glob_prefix("src/**/*.rs"), "src");
    assert_eq!(static_glob_prefix("*.rs"), ".");
}

#[test]
fn subagents_cannot_delegate() {
    let names = |defs: Vec<ToolDef>| -> Vec<String> {
        defs.into_iter().map(|d| d.function.name).collect()
    };
    assert!(!names(build_subagent_tools("/ws")).contains(&"subagent".to_string()));
    assert!(names(build_augmented_tools("/ws")).contains(&"subagent".to_string()));
    assert_eq!(names(builtin_tools("/ws")).len(), 7);
}

#[test]
fn finishing_is_reported() {
    let result = FinishTaskTool.report();
    assert!(!result.output.is_empty());
    assert!(result.changes.is_empty());
}

#[test]
fn paths_outside_the_workspace_are_not_reported() {
    let found = vec![
        "/ws/a.rs".to_string(),
        "/elsewhere/b.rs".to_string(),
        "/ws2/c.rs".to_string(),
        "/ws/sub/d.rs".to_string(),
    ];
    assert_eq!(GlobTool::report(&found, "/ws").output, "/ws/a.rs\n/ws/sub/d.rs");
    assert_eq!(GlobTool::report(&found, "/other").output, "No matches found.");
}

#[test]
fn paths_cannot_climb_out_of_the_workspace() {
    let refused = "Path '/w/new/../../x' is outside the workspace '/w'";
    assert_eq!(path_in_workspace("/w/new/../../x", "/w", "/w", "/w", "/w"), Err(refused.into()));
    assert_eq!(
        validate_path_in_workspace("/w/new/../../x", "/w", "/w/new/../../x".into(), "/w"),
        Err(refused.into())
    );
    assert!(path_in_workspace("/w/new/../x", "/w", "/w", "/w", "/w").is_err());
}

#[test]
fn missing_parts_of_paths_are_appended() {
    assert_eq!(
        path_in_workspace("/link/new/x.txt", "/link", "/real/ws", "/link", "/real/ws"),
        Ok("/real/ws/new/x.txt".to_string())
    );
    assert_eq!(
        path_in_workspace("/link/a", "/link/a", "/real/ws/a", "/link", "/real/ws"),
        Ok("/real/ws/a".to_string())
    );
    assert_eq!(
        path_in_workspace("/link/out/y", "/link/out", "/elsewhere", "/link", "/real/ws"),
        Err("Path '/link/out/y' is outside the workspace '/link'".to_string())
    );
}
