//! The tools, and what the model is told of them.

use crate::json;
use crate::json::{Json, JsonView};
use crate::llm::{ToolDef, ToolDefView, ToolFunctionDef, ToolFunctionDefView};
use vstd::prelude::*;

verus! {

/// Where tools work.
#[derive(Debug)]
pub struct ToolContext {
    pub workspace: String,
}

/// The schema of an argument.
pub open spec fn property(
    kind: Seq<char>,
    description: Seq<char>,
    default: Option<JsonView>,
) -> JsonView {
    let start = seq![
        ("type"@, JsonView::Text(kind)),
        ("description"@, JsonView::Text(description)),
    ];
    match default {
        Some(d) => JsonView::Object(start.push(("default"@, d))),
        None => JsonView::Object(start),
    }
}

/// The definition of a tool.
pub open spec fn tool_def(
    name: Seq<char>,
    description: Seq<char>,
    properties: Seq<(Seq<char>, JsonView)>,
    required: Seq<JsonView>,
) -> ToolDefView {
    ToolDefView {
        def_type: "function"@,
        function: ToolFunctionDefView {
            name,
            description,
            parameters: JsonView::Object(
                seq![
                    ("type"@, JsonView::Text("object"@)),
                    ("properties"@, JsonView::Object(properties)),
                    ("required"@, JsonView::List(required)),
                ],
            ),
        },
    }
}

fn push_property(
    properties: &mut Vec<(String, Json)>,
    name: &str,
    kind: &str,
    description: &str,
    default: Option<Json>,
)
    ensures
        json::members_view(final(properties)@) == json::members_view(old(properties)@).push(
            (
                name@,
                property(
                    kind@,
                    description@,
                    match default {
                        Some(d) => Some(d@),
                        None => None,
                    },
                ),
            ),
        ),
{
    let mut members = Json::no_members();
    Json::push_member(&mut members, "type", Json::string(kind));
    Json::push_member(&mut members, "description", Json::string(description));
    assert(json::members_view(members@) =~= seq![
        ("type"@, JsonView::Text(kind@)),
        ("description"@, JsonView::Text(description@)),
    ]);
    match default {
        Some(d) => Json::push_member(&mut members, "default", d),
        None => {},
    }
    Json::push_member(properties, name, Json::object(members));
}

fn no_items() -> (v: Vec<Json>)
    ensures
        json::items_view(v@) == Seq::<JsonView>::empty(),
{
    let v: Vec<Json> = Vec::new();
    assert(json::items_view(v@) =~= Seq::<JsonView>::empty());
    v
}

fn push_item(v: &mut Vec<Json>, s: &str)
    ensures
        json::items_view(final(v)@) == json::items_view(old(v)@).push(JsonView::Text(s@)),
{
    v.push(Json::string(s));
    assert(json::items_view(v@) =~= json::items_view(old(v)@).push(JsonView::Text(s@)));
}

fn make_def(
    name: &str,
    description: &str,
    properties: Vec<(String, Json)>,
    required: Vec<Json>,
) -> (d: ToolDef)
    ensures
        d@ == tool_def(
            name@,
            description@,
            json::members_view(properties@),
            json::items_view(required@),
        ),
{
    let mut schema = Json::no_members();
    Json::push_member(&mut schema, "type", Json::string("object"));
    Json::push_member(&mut schema, "properties", Json::object(properties));
    Json::push_member(&mut schema, "required", Json::list(required));
    let parameters = Json::object(schema);
    assert(parameters@->Object_0 =~= tool_def(
        name@,
        description@,
        json::members_view(properties@),
        json::items_view(required@),
    ).function.parameters->Object_0);
    ToolDef {
        def_type: "function".to_owned(),
        function: ToolFunctionDef {
            name: name.to_owned(),
            description: description.to_owned(),
            parameters,
        },
    }
}

/// What the model is told of `read`.
pub open spec fn read_def() -> ToolDefView {
    tool_def(
        "read"@,
        "Read the contents of a file. Supports optional offset and limit for partial reads."@,
        seq![
            ("file_path"@, property("string"@, "The absolute path to the file to read"@, None)),
            ("offset"@, property("integer"@, "Line number to start reading from (1-indexed)"@, Some(JsonView::Null))),
            ("limit"@, property("integer"@, "Maximum number of lines to read"@, Some(JsonView::Null))),
        ],
        seq![JsonView::Text("file_path"@)],
    )
}

/// Reads a file, or some of its lines.
#[derive(Debug)]
pub struct ReadTool {
    pub ctx: ToolContext,
}

impl ReadTool {
    /// The tool, for a workspace.
    pub fn new(workspace: String) -> (t: ReadTool)
        ensures
            t.ctx.workspace == workspace,
    {
        ReadTool { ctx: ToolContext { workspace } }
    }

    /// What the model is told of the tool.
    pub fn def(&self) -> (d: ToolDef)
        ensures
            d@ == read_def(),
    {
        let mut properties = Json::no_members();
        push_property(
            &mut properties,
            "file_path",
            "string",
            "The absolute path to the file to read",
            None,
        );
        push_property(
            &mut properties,
            "offset",
            "integer",
            "Line number to start reading from (1-indexed)",
            Some(Json::Null),
        );
        push_property(
            &mut properties,
            "limit",
            "integer",
            "Maximum number of lines to read",
            Some(Json::Null),
        );
        let mut required = no_items();
        push_item(&mut required, "file_path");
        let ghost given = (properties@, required@);
        let d = make_def(
            "read",
            "Read the contents of a file. Supports optional offset and limit for partial reads.",
            properties,
            required,
        );
        proof {
            assert(json::members_view(given.0) =~= seq![
                ("file_path"@, property("string"@, "The absolute path to the file to read"@, None)),
                ("offset"@, property("integer"@, "Line number to start reading from (1-indexed)"@, Some(JsonView::Null))),
                ("limit"@, property("integer"@, "Maximum number of lines to read"@, Some(JsonView::Null))),
            ]);
            assert(json::items_view(given.1) =~= seq![JsonView::Text("file_path"@)]);
        }
        d
    }
}

/// What the model is told of `glob`.
pub open spec fn glob_def() -> ToolDefView {
    tool_def(
        "glob"@,
        "Search for files matching a glob pattern."@,
        seq![
            ("pattern"@, property("string"@, "Glob pattern to match (e.g. \"src/**/*.rs\")"@, None)),
        ],
        seq![JsonView::Text("pattern"@)],
    )
}

/// Finds files by a pattern.
#[derive(Debug)]
pub struct GlobTool {
    pub ctx: ToolContext,
}

impl GlobTool {
    /// The tool, for a workspace.
    pub fn new(workspace: String) -> (t: GlobTool)
        ensures
            t.ctx.workspace == workspace,
    {
        GlobTool { ctx: ToolContext { workspace } }
    }

    /// What the model is told of the tool.
    pub fn def(&self) -> (d: ToolDef)
        ensures
            d@ == glob_def(),
    {
        let mut properties = Json::no_members();
        push_property(
            &mut properties,
            "pattern",
            "string",
            "Glob pattern to match (e.g. \"src/**/*.rs\")",
            None,
        );
        let mut required = no_items();
        push_item(&mut required, "pattern");
        let ghost given = (properties@, required@);
        let d = make_def(
            "glob",
            "Search for files matching a glob pattern.",
            properties,
            required,
        );
        proof {
            assert(json::members_view(given.0) =~= seq![
                ("pattern"@, property("string"@, "Glob pattern to match (e.g. \"src/**/*.rs\")"@, None)),
            ]);
            assert(json::items_view(given.1) =~= seq![JsonView::Text("pattern"@)]);
        }
        d
    }
}

/// What the model is told of `grep`.
pub open spec fn grep_def() -> ToolDefView {
    tool_def(
        "grep"@,
        "Search file contents for a regex pattern. Returns matching lines with file paths."@,
        seq![
            ("pattern"@, property("string"@, "Regex pattern to search for"@, None)),
            ("include"@, property("string"@, "File pattern to include (e.g. \"*.rs\")"@, Some(JsonView::Null))),
            ("path"@, property("string"@, "Directory to search in"@, Some(JsonView::Null))),
        ],
        seq![JsonView::Text("pattern"@)],
    )
}

/// Searches files for a regular expression.
#[derive(Debug)]
pub struct GrepTool {
    pub ctx: ToolContext,
}

impl GrepTool {
    /// The tool, for a workspace.
    pub fn new(workspace: String) -> (t: GrepTool)
        ensures
            t.ctx.workspace == workspace,
    {
        GrepTool { ctx: ToolContext { workspace } }
    }

    /// What the model is told of the tool.
    pub fn def(&self) -> (d: ToolDef)
        ensures
            d@ == grep_def(),
    {
        let mut properties = Json::no_members();
        push_property(
            &mut properties,
            "pattern",
            "string",
            "Regex pattern to search for",
            None,
        );
        push_property(
            &mut properties,
            "include",
            "string",
            "File pattern to include (e.g. \"*.rs\")",
            Some(Json::Null),
        );
        push_property(
            &mut properties,
            "path",
            "string",
            "Directory to search in",
            Some(Json::Null),
        );
        let mut required = no_items();
        push_item(&mut required, "pattern");
        let ghost given = (properties@, required@);
        let d = make_def(
            "grep",
            "Search file contents for a regex pattern. Returns matching lines with file paths.",
            properties,
            required,
        );
        proof {
            assert(json::members_view(given.0) =~= seq![
                ("pattern"@, property("string"@, "Regex pattern to search for"@, None)),
                ("include"@, property("string"@, "File pattern to include (e.g. \"*.rs\")"@, Some(JsonView::Null))),
                ("path"@, property("string"@, "Directory to search in"@, Some(JsonView::Null))),
            ]);
            assert(json::items_view(given.1) =~= seq![JsonView::Text("pattern"@)]);
        }
        d
    }
}

/// What the model is told of `write`.
pub open spec fn write_def() -> ToolDefView {
    tool_def(
        "write"@,
        "Write content to a file. Creates the file if it doesn't exist. Overwrites existing content."@,
        seq![
            ("file_path"@, property("string"@, "The path to write to"@, None)),
            ("content"@, property("string"@, "The content to write"@, None)),
        ],
        seq![JsonView::Text("file_path"@), JsonView::Text("content"@)],
    )
}

/// Writes a file.
#[derive(Debug)]
pub struct WriteTool {
    pub ctx: ToolContext,
}

impl WriteTool {
    /// The tool, for a workspace.
    pub fn new(workspace: String) -> (t: WriteTool)
        ensures
            t.ctx.workspace == workspace,
    {
        WriteTool { ctx: ToolContext { workspace } }
    }

    /// What the model is told of the tool.
    pub fn def(&self) -> (d: ToolDef)
        ensures
            d@ == write_def(),
    {
        let mut properties = Json::no_members();
        push_property(
            &mut properties,
            "file_path",
            "string",
            "The path to write to",
            None,
        );
        push_property(
            &mut properties,
            "content",
            "string",
            "The content to write",
            None,
        );
        let mut required = no_items();
        push_item(&mut required, "file_path");
        push_item(&mut required, "content");
        let ghost given = (properties@, required@);
        let d = make_def(
            "write",
            "Write content to a file. Creates the file if it doesn't exist. Overwrites existing content.",
            properties,
            required,
        );
        proof {
            assert(json::members_view(given.0) =~= seq![
                ("file_path"@, property("string"@, "The path to write to"@, None)),
                ("content"@, property("string"@, "The content to write"@, None)),
            ]);
            assert(json::items_view(given.1) =~= seq![JsonView::Text("file_path"@), JsonView::Text("content"@)]);
        }
        d
    }
}

/// What the model is told of `edit`.
pub open spec fn edit_def() -> ToolDefView {
    tool_def(
        "edit"@,
        "Perform a search-and-replace edit on a file. Replaces the first occurrence of old_string with new_string."@,
        seq![
            ("file_path"@, property("string"@, "The path to the file to edit"@, None)),
            ("old_string"@, property("string"@, "The text to search for (must match exactly)"@, None)),
            ("new_string"@, property("string"@, "The replacement text"@, None)),
        ],
        seq![JsonView::Text("file_path"@), JsonView::Text("old_string"@), JsonView::Text("new_string"@)],
    )
}

/// Replaces a text in a file.
#[derive(Debug)]
pub struct EditTool {
    pub ctx: ToolContext,
}

impl EditTool {
    /// The tool, for a workspace.
    pub fn new(workspace: String) -> (t: EditTool)
        ensures
            t.ctx.workspace == workspace,
    {
        EditTool { ctx: ToolContext { workspace } }
    }

    /// What the model is told of the tool.
    pub fn def(&self) -> (d: ToolDef)
        ensures
            d@ == edit_def(),
    {
        let mut properties = Json::no_members();
        push_property(
            &mut properties,
            "file_path",
            "string",
            "The path to the file to edit",
            None,
        );
        push_property(
            &mut properties,
            "old_string",
            "string",
            "The text to search for (must match exactly)",
            None,
        );
        push_property(
            &mut properties,
            "new_string",
            "string",
            "The replacement text",
            None,
        );
        let mut required = no_items();
        push_item(&mut required, "file_path");
        push_item(&mut required, "old_string");
        push_item(&mut required, "new_string");
        let ghost given = (properties@, required@);
        let d = make_def(
            "edit",
            "Perform a search-and-replace edit on a file. Replaces the first occurrence of old_string with new_string.",
            properties,
            required,
        );
        proof {
            assert(json::members_view(given.0) =~= seq![
                ("file_path"@, property("string"@, "The path to the file to edit"@, None)),
                ("old_string"@, property("string"@, "The text to search for (must match exactly)"@, None)),
                ("new_string"@, property("string"@, "The replacement text"@, None)),
            ]);
            assert(json::items_view(given.1) =~= seq![JsonView::Text("file_path"@), JsonView::Text("old_string"@), JsonView::Text("new_string"@)]);
        }
        d
    }
}

/// What the model is told of `delete`.
pub open spec fn delete_def() -> ToolDefView {
    tool_def(
        "delete"@,
        "Delete an existing file. File-only in v1 (directories are rejected)."@,
        seq![
            ("file_path"@, property("string"@, "The file path to delete"@, None)),
        ],
        seq![JsonView::Text("file_path"@)],
    )
}

/// Deletes a file.
#[derive(Debug)]
pub struct DeleteTool {
    pub ctx: ToolContext,
}

impl DeleteTool {
    /// The tool, for a workspace.
    pub fn new(workspace: String) -> (t: DeleteTool)
        ensures
            t.ctx.workspace == workspace,
    {
        DeleteTool { ctx: ToolContext { workspace } }
    }

    /// What the model is told of the tool.
    pub fn def(&self) -> (d: ToolDef)
        ensures
            d@ == delete_def(),
    {
        let mut properties = Json::no_members();
        push_property(
            &mut properties,
            "file_path",
            "string",
            "The file path to delete",
            None,
        );
        let mut required = no_items();
        push_item(&mut required, "file_path");
        let ghost given = (properties@, required@);
        let d = make_def(
            "delete",
            "Delete an existing file. File-only in v1 (directories are rejected).",
            properties,
            required,
        );
        proof {
            assert(json::members_view(given.0) =~= seq![
                ("file_path"@, property("string"@, "The file path to delete"@, None)),
            ]);
            assert(json::items_view(given.1) =~= seq![JsonView::Text("file_path"@)]);
        }
        d
    }
}

/// What the model is told of `bash`.
pub open spec fn bash_def() -> ToolDefView {
    tool_def(
        "bash"@,
        "Execute a shell command. Use with caution."@,
        seq![
            ("command"@, property("string"@, "The shell command to execute"@, None)),
            ("description"@, property("string"@, "A brief description of what the command does"@, Some(JsonView::Null))),
            ("timeout"@, property("integer"@, "Timeout in seconds (default: 120)"@, Some(JsonView::UInt(120)))),
        ],
        seq![JsonView::Text("command"@)],
    )
}

/// Runs a shell command.
#[derive(Debug)]
pub struct BashTool {
    pub ctx: ToolContext,
}

impl BashTool {
    /// The tool, for a workspace.
    pub fn new(workspace: String) -> (t: BashTool)
        ensures
            t.ctx.workspace == workspace,
    {
        BashTool { ctx: ToolContext { workspace } }
    }

    /// What the model is told of the tool.
    pub fn def(&self) -> (d: ToolDef)
        ensures
            d@ == bash_def(),
    {
        let mut properties = Json::no_members();
        push_property(
            &mut properties,
            "command",
            "string",
            "The shell command to execute",
            None,
        );
        push_property(
            &mut properties,
            "description",
            "string",
            "A brief description of what the command does",
            Some(Json::Null),
        );
        push_property(
            &mut properties,
            "timeout",
            "integer",
            "Timeout in seconds (default: 120)",
            Some(Json::UInt(120)),
        );
        let mut required = no_items();
        push_item(&mut required, "command");
        let ghost given = (properties@, required@);
        let d = make_def(
            "bash",
            "Execute a shell command. Use with caution.",
            properties,
            required,
        );
        proof {
            assert(json::members_view(given.0) =~= seq![
                ("command"@, property("string"@, "The shell command to execute"@, None)),
                ("description"@, property("string"@, "A brief description of what the command does"@, Some(JsonView::Null))),
                ("timeout"@, property("integer"@, "Timeout in seconds (default: 120)"@, Some(JsonView::UInt(120)))),
            ]);
            assert(json::items_view(given.1) =~= seq![JsonView::Text("command"@)]);
        }
        d
    }
}

/// What the model is told of `use_skill`.
pub open spec fn use_skill_def() -> ToolDefView {
    tool_def(
        "use_skill"@,
        "Load the full content of a named skill. Call this when a skill listed in 'Skills available' is relevant to the current task."@,
        seq![
            ("skill_name"@, property("string"@, "Name of the skill to load"@, None)),
        ],
        seq![JsonView::Text("skill_name"@)],
    )
}

/// Loads a skill.
#[derive(Debug)]
pub struct UseSkillTool;

impl UseSkillTool {
    /// What the model is told of the tool.
    pub fn def(&self) -> (d: ToolDef)
        ensures
            d@ == use_skill_def(),
    {
        let mut properties = Json::no_members();
        push_property(
            &mut properties,
            "skill_name",
            "string",
            "Name of the skill to load",
            None,
        );
        let mut required = no_items();
        push_item(&mut required, "skill_name");
        let ghost given = (properties@, required@);
        let d = make_def(
            "use_skill",
            "Load the full content of a named skill. Call this when a skill listed in 'Skills available' is relevant to the current task.",
            properties,
            required,
        );
        proof {
            assert(json::members_view(given.0) =~= seq![
                ("skill_name"@, property("string"@, "Name of the skill to load"@, None)),
            ]);
            assert(json::items_view(given.1) =~= seq![JsonView::Text("skill_name"@)]);
        }
        d
    }
}

/// What the model is told of `finish_task`.
pub open spec fn finish_task_def() -> ToolDefView {
    tool_def(
        "finish_task"@,
        "Call exactly once when the user's request is fully complete. Provide the final answer to show the user."@,
        seq![
            ("final_answer"@, property("string"@, "Final response to the user, including concise summary and any caveats."@, None)),
        ],
        seq![JsonView::Text("final_answer"@)],
    )
}

/// Marks the end of the task; the agent loop does not run it like other tools.
#[derive(Debug)]
pub struct FinishTaskTool;

impl FinishTaskTool {
    /// What the model is told of the tool.
    pub fn def(&self) -> (d: ToolDef)
        ensures
            d@ == finish_task_def(),
    {
        let mut properties = Json::no_members();
        push_property(
            &mut properties,
            "final_answer",
            "string",
            "Final response to the user, including concise summary and any caveats.",
            None,
        );
        let mut required = no_items();
        push_item(&mut required, "final_answer");
        let ghost given = (properties@, required@);
        let d = make_def(
            "finish_task",
            "Call exactly once when the user's request is fully complete. Provide the final answer to show the user.",
            properties,
            required,
        );
        proof {
            assert(json::members_view(given.0) =~= seq![
                ("final_answer"@, property("string"@, "Final response to the user, including concise summary and any caveats."@, None)),
            ]);
            assert(json::items_view(given.1) =~= seq![JsonView::Text("final_answer"@)]);
        }
        d
    }
}

/// What the model is told of `subagent`.
pub open spec fn subagent_def() -> ToolDefView {
    tool_def(
        "subagent"@,
        "Delegate a task to a named sub-agent. Available agents are listed in the system prompt."@,
        seq![
            ("agent"@, property("string"@, "Name of the agent to delegate to"@, None)),
            ("task"@, property("string"@, "The task or question for the sub-agent"@, None)),
        ],
        seq![JsonView::Text("agent"@), JsonView::Text("task"@)],
    )
}

/// Delegates a task to another agent.
#[derive(Debug)]
pub struct SubagentTool {
    pub ctx: ToolContext,
}

impl SubagentTool {
    /// The tool, for a workspace.
    pub fn new(ctx: ToolContext) -> (t: SubagentTool)
        ensures
            t.ctx == ctx,
    {
        SubagentTool { ctx }
    }

    /// What the model is told of the tool.
    pub fn def(&self) -> (d: ToolDef)
        ensures
            d@ == subagent_def(),
    {
        let mut properties = Json::no_members();
        push_property(
            &mut properties,
            "agent",
            "string",
            "Name of the agent to delegate to",
            None,
        );
        push_property(
            &mut properties,
            "task",
            "string",
            "The task or question for the sub-agent",
            None,
        );
        let mut required = no_items();
        push_item(&mut required, "agent");
        push_item(&mut required, "task");
        let ghost given = (properties@, required@);
        let d = make_def(
            "subagent",
            "Delegate a task to a named sub-agent. Available agents are listed in the system prompt.",
            properties,
            required,
        );
        proof {
            assert(json::members_view(given.0) =~= seq![
                ("agent"@, property("string"@, "Name of the agent to delegate to"@, None)),
                ("task"@, property("string"@, "The task or question for the sub-agent"@, None)),
            ]);
            assert(json::items_view(given.1) =~= seq![JsonView::Text("agent"@), JsonView::Text("task"@)]);
        }
        d
    }
}

/// The tools that are built in.
pub open spec fn builtin_defs() -> Seq<ToolDefView> {
    seq![read_def(), glob_def(), grep_def(), write_def(), edit_def(), delete_def(), bash_def()]
}

/// The tools that a subagent has: those that are built in, skills and the end
/// of the task, but no further delegation.
pub open spec fn subagent_defs() -> Seq<ToolDefView> {
    builtin_defs().push(use_skill_def()).push(finish_task_def())
}

/// The tools of an agent that talks to the user.
pub open spec fn augmented_defs() -> Seq<ToolDefView> {
    subagent_defs().push(subagent_def())
}

/// What the model is told of the tools that are built in.
pub fn builtin_tools(workspace: &str) -> (defs: Vec<ToolDef>)
    ensures
        ToolDef::views(defs@) == builtin_defs(),
{
    let mut defs: Vec<ToolDef> = Vec::new();
    defs.push(ReadTool::new(workspace.to_owned()).def());
    defs.push(GlobTool::new(workspace.to_owned()).def());
    defs.push(GrepTool::new(workspace.to_owned()).def());
    defs.push(WriteTool::new(workspace.to_owned()).def());
    defs.push(EditTool::new(workspace.to_owned()).def());
    defs.push(DeleteTool::new(workspace.to_owned()).def());
    defs.push(BashTool::new(workspace.to_owned()).def());
    assert(ToolDef::views(defs@) =~= builtin_defs());
    defs
}

/// What a subagent is told of its tools.
pub fn build_subagent_tools(workspace: &str) -> (defs: Vec<ToolDef>)
    ensures
        ToolDef::views(defs@) == subagent_defs(),
{
    let mut defs = builtin_tools(workspace);
    defs.push(UseSkillTool.def());
    defs.push(FinishTaskTool.def());
    assert(ToolDef::views(defs@) =~= subagent_defs());
    defs
}

/// What an agent that talks to the user is told of its tools.
pub fn build_augmented_tools(workspace: &str) -> (defs: Vec<ToolDef>)
    ensures
        ToolDef::views(defs@) == augmented_defs(),
{
    let mut defs = build_subagent_tools(workspace);
    defs.push(SubagentTool::new(ToolContext { workspace: workspace.to_owned() }).def());
    assert(ToolDef::views(defs@) =~= augmented_defs());
    defs
}

/// A subagent is not offered to delegate any further.
pub proof fn law_subagents_do_not_delegate(i: int)
    requires
        0 <= i < subagent_defs().len(),
    ensures
        subagent_defs()[i].function.name != "subagent"@,
{
    reveal_strlit("subagent");
    reveal_strlit("read");
    reveal_strlit("glob");
    reveal_strlit("grep");
    reveal_strlit("write");
    reveal_strlit("edit");
    reveal_strlit("delete");
    reveal_strlit("bash");
    reveal_strlit("use_skill");
    reveal_strlit("finish_task");
    let name = subagent_defs()[i].function.name;
    assert("subagent"@.len() == 8);
    assert(name.len() != 8);
}

/// The tools go by their names, in this order: those that work on files and run
/// commands, then those for skills and for the end of the task, and last the one
/// that delegates.
pub proof fn law_tools_go_by_their_names(workspace: &str, defs: Vec<ToolDef>)
    requires
        call_ensures(build_augmented_tools, (workspace,), defs),
    ensures
        defs@.len() == 10,
        defs@[0]@.function.name == "read"@,
        defs@[1]@.function.name == "glob"@,
        defs@[2]@.function.name == "grep"@,
        defs@[3]@.function.name == "write"@,
        defs@[4]@.function.name == "edit"@,
        defs@[5]@.function.name == "delete"@,
        defs@[6]@.function.name == "bash"@,
        defs@[7]@.function.name == "use_skill"@,
        defs@[8]@.function.name == "finish_task"@,
        defs@[9]@.function.name == "subagent"@,
        forall|i: int| 0 <= i < defs@.len() ==> (#[trigger] defs@[i])@.def_type == "function"@,
{
    let views = ToolDef::views(defs@);
    assert(views.len() == defs@.len());
    assert forall|i: int| 0 <= i < defs@.len() implies (#[trigger] defs@[i])@
        == augmented_defs()[i] by {
        assert(views[i] == defs@[i]@);
    }
}

} // verus!
