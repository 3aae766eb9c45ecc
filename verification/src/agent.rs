//! What the agent loop reports, and how it reads a conversation.

pub mod conduct;
pub mod exchange;
pub mod laws;
pub mod run;

use crate::config::Permission;
use crate::json::{Json, JsonView};
use crate::llm::{
    ChatMessage, ChatMessageView, ChatResult, Role, RollbackEntry, RollbackEntryView, ToolCall,
    ToolCallView, ToolDef, ToolDefView,
};
use crate::prompt::{ToolResultSummary, ToolResultSummaryView};
use crate::protocol::{FileChange, FileChangeView, ToolCallDisplay, ToolCallDisplayView};
use crate::strmap::StrMap;
use crate::text;
use vstd::prelude::*;
use vstd::string::*;
use vstd::utf8::*;

verus! {

/// What the agent loop and its subagents report.
#[derive(Debug)]
pub enum AgentEvent {
    TextDelta(String),
    ReasoningDelta(String),
    ToolStarted { id: String, name: String },
    ToolCompleted { id: String, name: String, result: String, changes: Vec<FileChange>, rollback_entries: Vec<RollbackEntry> },
    ToolFailed { id: String, error: String },
    /// One turn is over.
    TurnDone { text: String, tool_calls: Vec<ToolCallDisplay> },
    /// The user must allow or refuse a tool call with these arguments.
    PermissionRequest { id: String, tool_name: String, args: Json },
    SkillsLoaded { names: Vec<String> },
    SkillSelected { name: String },
    SubagentStarted { id: String, name: String },
    SubagentTextDelta { id: String, data: String },
    SubagentReasoningDelta { id: String, data: String },
    SubagentToolStarted { id: String, sub_id: String, tool_name: String },
    SubagentToolCompleted { id: String, sub_id: String, result: String, changes: Vec<FileChange> },
    SubagentToolFailed { id: String, sub_id: String, error: String },
    SubagentDone { id: String, content: String },
    /// The task is finished. The history is the whole conversation.
    Done { content: String, tokens_input: u64, tokens_output: u64, history: Vec<ChatMessage> },
    /// The user cancelled the task.
    Cancelled { content: String, tokens_input: u64, tokens_output: u64, history: Vec<ChatMessage> },
    /// The loop stopped before the task was finished.
    NeedsContinuation { content: String, tokens_input: u64, tokens_output: u64, history: Vec<ChatMessage> },
}

/// The model of [`AgentEvent`].
pub enum AgentEventView {
    TextDelta(Seq<char>),
    ReasoningDelta(Seq<char>),
    ToolStarted { id: Seq<char>, name: Seq<char> },
    ToolCompleted { id: Seq<char>, name: Seq<char>, result: Seq<char>, changes: Seq<FileChangeView>, rollback_entries: Seq<RollbackEntryView> },
    ToolFailed { id: Seq<char>, error: Seq<char> },
    TurnDone { text: Seq<char>, tool_calls: Seq<ToolCallDisplayView> },
    PermissionRequest { id: Seq<char>, tool_name: Seq<char>, args: JsonView },
    SkillsLoaded { names: Seq<Seq<char>> },
    SkillSelected { name: Seq<char> },
    SubagentStarted { id: Seq<char>, name: Seq<char> },
    SubagentTextDelta { id: Seq<char>, data: Seq<char> },
    SubagentReasoningDelta { id: Seq<char>, data: Seq<char> },
    SubagentToolStarted { id: Seq<char>, sub_id: Seq<char>, tool_name: Seq<char> },
    SubagentToolCompleted { id: Seq<char>, sub_id: Seq<char>, result: Seq<char>, changes: Seq<FileChangeView> },
    SubagentToolFailed { id: Seq<char>, sub_id: Seq<char>, error: Seq<char> },
    SubagentDone { id: Seq<char>, content: Seq<char> },
    Done { content: Seq<char>, tokens_input: u64, tokens_output: u64, history: Seq<ChatMessageView> },
    Cancelled { content: Seq<char>, tokens_input: u64, tokens_output: u64, history: Seq<ChatMessageView> },
    NeedsContinuation { content: Seq<char>, tokens_input: u64, tokens_output: u64, history: Seq<ChatMessageView> },
}

impl View for AgentEvent {
    type V = AgentEventView;

    open spec fn view(&self) -> AgentEventView {
        match *self {
            AgentEvent::TextDelta(a) => AgentEventView::TextDelta(a@),
            AgentEvent::ReasoningDelta(a) => AgentEventView::ReasoningDelta(a@),
            AgentEvent::ToolStarted { id, name } => AgentEventView::ToolStarted { id: id@, name: name@ },
            AgentEvent::ToolCompleted { id, name, result, changes, rollback_entries } => AgentEventView::ToolCompleted { id: id@, name: name@, result: result@, changes: FileChange::views(changes@), rollback_entries: RollbackEntry::views(rollback_entries@) },
            AgentEvent::ToolFailed { id, error } => AgentEventView::ToolFailed { id: id@, error: error@ },
            AgentEvent::TurnDone { text, tool_calls } => AgentEventView::TurnDone { text: text@, tool_calls: ToolCallDisplay::views(tool_calls@) },
            AgentEvent::PermissionRequest { id, tool_name, args } => AgentEventView::PermissionRequest { id: id@, tool_name: tool_name@, args: args@ },
            AgentEvent::SkillsLoaded { names } => AgentEventView::SkillsLoaded { names: text::views(names@) },
            AgentEvent::SkillSelected { name } => AgentEventView::SkillSelected { name: name@ },
            AgentEvent::SubagentStarted { id, name } => AgentEventView::SubagentStarted { id: id@, name: name@ },
            AgentEvent::SubagentTextDelta { id, data } => AgentEventView::SubagentTextDelta { id: id@, data: data@ },
            AgentEvent::SubagentReasoningDelta { id, data } => AgentEventView::SubagentReasoningDelta { id: id@, data: data@ },
            AgentEvent::SubagentToolStarted { id, sub_id, tool_name } => AgentEventView::SubagentToolStarted { id: id@, sub_id: sub_id@, tool_name: tool_name@ },
            AgentEvent::SubagentToolCompleted { id, sub_id, result, changes } => AgentEventView::SubagentToolCompleted { id: id@, sub_id: sub_id@, result: result@, changes: FileChange::views(changes@) },
            AgentEvent::SubagentToolFailed { id, sub_id, error } => AgentEventView::SubagentToolFailed { id: id@, sub_id: sub_id@, error: error@ },
            AgentEvent::SubagentDone { id, content } => AgentEventView::SubagentDone { id: id@, content: content@ },
            AgentEvent::Done { content, tokens_input, tokens_output, history } => AgentEventView::Done { content: content@, tokens_input, tokens_output, history: ChatMessage::views(history@) },
            AgentEvent::Cancelled { content, tokens_input, tokens_output, history } => AgentEventView::Cancelled { content: content@, tokens_input, tokens_output, history: ChatMessage::views(history@) },
            AgentEvent::NeedsContinuation { content, tokens_input, tokens_output, history } => AgentEventView::NeedsContinuation { content: content@, tokens_input, tokens_output, history: ChatMessage::views(history@) },
        }
    }
}

impl AgentEvent {
    /// The models of a sequence of values.
    pub open spec fn views(v: Seq<AgentEvent>) -> Seq<AgentEventView> {
        v.map_values(|x: AgentEvent| x@)
    }
}

/// The longest prefix of `s` that takes at most `max_bytes` bytes.
pub fn safe_truncate(s: &str, max_bytes: usize) -> (r: &str)
    ensures
        r@ == text::truncated(s@, max_bytes as nat),
{
    if text::len_bytes(s) <= max_bytes {
        return s;
    }
    proof {
        encode_utf8_valid_utf8(s@);
        is_char_boundary_start_end_of_seq(encode_utf8(s@));
    }
    let mut end: usize = max_bytes;
    while end > 0 && !s.is_char_boundary(end)
        invariant
            end <= max_bytes < text::byte_len(s@),
            forall|j: int|
                end < j <= max_bytes ==> !is_char_boundary(encode_utf8(s@), j),
            s.spec_bytes() == encode_utf8(s@),
        decreases end,
    {
        end -= 1;
    }
    let r = s.split_at(end).0;
    proof {
        text::lemma_truncated_at_boundary(s@, r@, max_bytes as nat, end as int);
    }
    r
}

/// What `permissions` say of a tool; a tool that they do not mention needs the
/// user's consent.
pub open spec fn permission_of(
    permissions: Map<Seq<char>, Permission>,
    name: Seq<char>,
) -> Permission {
    if permissions.contains_key(name) {
        permissions[name]
    } else {
        Permission::Ask
    }
}

/// The permission for a tool.
pub fn permission_for(permissions: &StrMap<Permission>, name: &str) -> (p: Permission)
    ensures
        p == permission_of(permissions@, name@),
{
    match permissions.get(name) {
        Some(p) => *p,
        None => Permission::Ask,
    }
}

/// The tools that the model is told of: those that are not denied.
pub open spec fn advertised(
    tools: Seq<ToolDefView>,
    permissions: Map<Seq<char>, Permission>,
) -> Seq<ToolDefView>
    decreases tools.len(),
{
    if tools.len() == 0 {
        Seq::empty()
    } else {
        let before = advertised(tools.drop_last(), permissions);
        if permission_of(permissions, tools.last().function.name) == Permission::Deny {
            before
        } else {
            before.push(tools.last())
        }
    }
}

/// The tools that the model is told of.
pub fn advertised_tool_defs(
    tools: &Vec<ToolDef>,
    permissions: &StrMap<Permission>,
) -> (defs: Vec<ToolDef>)
    ensures
        ToolDef::views(defs@) == advertised(ToolDef::views(tools@), permissions@),
{
    let ghost all = ToolDef::views(tools@);
    let mut defs: Vec<ToolDef> = Vec::new();
    let mut i: usize = 0;
    assert(ToolDef::views(defs@) =~= advertised(all.take(0), permissions@));
    while i < tools.len()
        invariant
            i <= tools.len(),
            all == ToolDef::views(tools@),
            ToolDef::views(defs@) == advertised(all.take(i as int), permissions@),
        decreases tools.len() - i,
    {
        assert(all.take(i + 1).drop_last() =~= all.take(i as int));
        assert(all.take(i + 1).last() == tools@[i as int]@);
        let ghost before = defs@;
        if permission_for(permissions, tools[i].function.name.as_str()) != Permission::Deny {
            defs.push(tools[i].clone());
            assert(ToolDef::views(defs@) =~= ToolDef::views(before).push(tools@[i as int]@));
        }
        i += 1;
    }
    assert(all.take(all.len() as int) =~= all);
    defs
}

/// Whether this reason for stopping ends the task.
pub open spec fn is_final_reason(reason: Option<Seq<char>>) -> bool {
    match reason {
        Some(r) => r == "stop"@ || r == "length"@ || r == "content_filter"@,
        None => false,
    }
}

/// Whether the model has nothing more to do after this answer.
pub fn assistant_turn_is_finished(result: &ChatResult) -> (b: bool)
    ensures
        b == (result.tool_calls@.len() == 0 && is_final_reason(
            text::opt_view(result.finish_reason),
        )),
{
    if result.tool_calls.len() > 0 {
        return false;
    }
    match &result.finish_reason {
        Some(r) => text::same(r.as_str(), "stop") || text::same(r.as_str(), "length")
            || text::same(r.as_str(), "content_filter"),
        None => false,
    }
}

/// The text of an answer: its content, or what was streamed where the content
/// is missing or empty.
pub open spec fn answer_text(content: Option<Seq<char>>, streamed: Seq<char>) -> Seq<char> {
    match content {
        Some(c) => if c.len() > 0 || streamed.len() == 0 {
            c
        } else {
            streamed
        },
        None => streamed,
    }
}

/// The text of an answer.
pub fn assistant_result_text(result: &ChatResult, streamed_text: &str) -> (s: String)
    ensures
        s@ == answer_text(text::opt_view(result.content), streamed_text@),
{
    match &result.content {
        Some(content) => {
            if !content.as_str().is_empty() || streamed_text.is_empty() {
                content.clone()
            } else {
                streamed_text.to_owned()
            }
        },
        None => streamed_text.to_owned(),
    }
}

/// The skill that a line of the skills index names.
pub open spec fn line_skill(line: Seq<char>) -> Option<Seq<char>> {
    match text::find(text::trimmed(line), " — "@) {
        Some(k) => Some(text::trimmed(line).take(k as int)),
        None => None,
    }
}

/// The skills that some lines of the skills index name.
pub open spec fn line_skills(lines: Seq<Seq<char>>) -> Seq<Seq<char>>
    decreases lines.len(),
{
    if lines.len() == 0 {
        Seq::empty()
    } else {
        let before = line_skills(lines.drop_last());
        match line_skill(lines.last()) {
            Some(name) => before.push(name),
            None => before,
        }
    }
}

/// The skills that a layer of the system prompt lists: it lists some only if
/// it is the skills index, below whose heading each line may name one.
pub open spec fn layer_skills(layer: Seq<char>) -> Seq<Seq<char>> {
    if text::starts_with(layer, "Skills available:"@) && text::lines(layer).len() > 0 {
        line_skills(text::lines(layer).skip(1))
    } else {
        Seq::empty()
    }
}

/// The skills that the layers of the system prompt list.
pub open spec fn listed_skills(layers: Seq<Seq<char>>) -> Seq<Seq<char>>
    decreases layers.len(),
{
    if layers.len() == 0 {
        Seq::empty()
    } else {
        listed_skills(layers.drop_last()) + layer_skills(layers.last())
    }
}

/// Appends the skills that `layer` lists.
fn push_layer_skills(layer: &str, names: &mut Vec<String>)
    ensures
        text::views(final(names)@) == text::views(old(names)@) + layer_skills(layer@),
{
    assert(text::views(names@) + Seq::empty() =~= text::views(names@));
    if !text::starts_with_str(layer, "Skills available:") {
        return;
    }
    let all = text::lines_of(layer);
    if all.len() == 0 {
        assert(text::lines(layer@).len() == 0);
        return;
    }
    let ghost rest = text::lines(layer@).skip(1);
    let ghost before = text::views(names@);
    let mut i: usize = 1;
    assert(line_skills(rest.take(0)) =~= Seq::empty());
    while i < all.len()
        invariant
            1 <= i <= all.len(),
            text::views(all@) == text::lines(layer@),
            rest == text::lines(layer@).skip(1),
            text::views(names@) == before + line_skills(rest.take(i - 1)),
        decreases all.len() - i,
    {
        let ghost upto = rest.take(i as int);
        assert(upto.drop_last() =~= rest.take(i - 1));
        assert(upto.last() == text::views(all@)[i as int]);
        let ghost prior = text::views(names@);
        let line = text::trim_str(all[i].as_str());
        match text::split_once_str(line.as_str(), " — ") {
            Some((name, _)) => {
                names.push(name);
                assert(text::views(names@) =~= prior.push(name@));
                assert(text::views(names@) =~= before + line_skills(upto));
            },
            None => {},
        }
        i += 1;
    }
    assert(rest.take(all.len() - 1) =~= rest);
}

/// The skills that the layers of the system prompt list.
pub fn listed_skill_names(layers: &Vec<String>) -> (names: Vec<String>)
    ensures
        text::views(names@) == listed_skills(text::views(layers@)),
{
    let ghost all = text::views(layers@);
    let mut names: Vec<String> = Vec::new();
    let mut i: usize = 0;
    assert(text::views(names@) =~= listed_skills(all.take(0)));
    while i < layers.len()
        invariant
            i <= layers.len(),
            all == text::views(layers@),
            text::views(names@) == listed_skills(all.take(i as int)),
        decreases layers.len() - i,
    {
        assert(all.take(i + 1).drop_last() =~= all.take(i as int));
        assert(all.take(i + 1).last() == layers@[i as int]@);
        push_layer_skills(layers[i].as_str(), &mut names);
        i += 1;
    }
    assert(all.take(all.len() as int) =~= all);
    names
}

/// The tool calls of the last message of the model that asks for some.
pub open spec fn last_calls(history: Seq<ChatMessageView>) -> Seq<ToolCallView>
    decreases history.len(),
{
    if history.len() == 0 {
        Seq::empty()
    } else if history.last().role == Role::Assistant && history.last().tool_calls is Some {
        history.last().tool_calls->0
    } else {
        last_calls(history.drop_last())
    }
}

/// The name of the tool that the call `id` is for; where calls share an
/// identifier, the last one counts.
pub open spec fn call_name(calls: Seq<ToolCallView>, id: Seq<char>) -> Option<Seq<char>>
    decreases calls.len(),
{
    if calls.len() == 0 {
        None
    } else if calls.last().id == id {
        Some(calls.last().function.name)
    } else {
        call_name(calls.drop_last(), id)
    }
}

/// How the result of a tool call is summed up for the next turn.
pub open spec fn result_summary(
    message: ChatMessageView,
    calls: Seq<ToolCallView>,
) -> ToolResultSummaryView {
    let content = match message.content {
        Some(c) => c,
        None => Seq::empty(),
    };
    let name = match message.tool_call_id {
        Some(id) => call_name(calls, id),
        None => None,
    };
    ToolResultSummaryView {
        tool_name: match name {
            Some(n) => n,
            None => "unknown"@,
        },
        success: !text::starts_with(text::trim_start(content), "Error:"@),
        summary: if text::byte_len(content) > 120 {
            text::truncated(content, 117) + "..."@
        } else {
            content
        },
    }
}

/// The summaries of the tool results that `history` ends with.
pub open spec fn trailing_results(
    history: Seq<ChatMessageView>,
    calls: Seq<ToolCallView>,
) -> Seq<ToolResultSummaryView>
    decreases history.len(),
{
    if history.len() == 0 || history.last().role != Role::Tool {
        Seq::empty()
    } else {
        trailing_results(history.drop_last(), calls).push(result_summary(history.last(), calls))
    }
}

/// The summaries of the tool results of the last turn.
pub open spec fn last_turn_results(history: Seq<ChatMessageView>) -> Seq<ToolResultSummaryView> {
    trailing_results(history, last_calls(history))
}

/// The name of the tool that the call `id` is for.
fn find_call_name(calls: &Vec<ToolCall>, id: &str) -> (r: Option<String>)
    ensures
        text::opt_view(r) == call_name(ToolCall::views(calls@), id@),
{
    let ghost all = ToolCall::views(calls@);
    let mut i: usize = calls.len();
    assert(all.take(i as int) =~= all);
    while i > 0
        invariant
            i <= calls.len(),
            all == ToolCall::views(calls@),
            call_name(all, id@) == call_name(all.take(i as int), id@),
        decreases i,
    {
        assert(all.take(i as int).last() == calls@[i - 1]@);
        assert(all.take(i as int).drop_last() =~= all.take(i - 1));
        if text::same(calls[i - 1].id.as_str(), id) {
            return Some(calls[i - 1].function.name.clone());
        }
        i -= 1;
    }
    None
}

/// The tool calls of the last message of the model that asks for some.
fn find_last_calls(history: &Vec<ChatMessage>) -> (calls: Vec<ToolCall>)
    ensures
        ToolCall::views(calls@) == last_calls(ChatMessage::views(history@)),
{
    let ghost all = ChatMessage::views(history@);
    let mut i: usize = history.len();
    assert(all.take(i as int) =~= all);
    while i > 0
        invariant
            i <= history.len(),
            all == ChatMessage::views(history@),
            last_calls(all) == last_calls(all.take(i as int)),
        decreases i,
    {
        assert(all.take(i as int).last() == history@[i - 1]@);
        assert(all.take(i as int).drop_last() =~= all.take(i - 1));
        let message = &history[i - 1];
        if message.role == Role::Assistant {
            match &message.tool_calls {
                Some(calls) => {
                    return ToolCall::clone_all(calls);
                },
                None => {},
            }
        }
        i -= 1;
    }
    let none: Vec<ToolCall> = Vec::new();
    assert(ToolCall::views(none@) =~= Seq::empty());
    none
}

/// How the result of a tool call is summed up for the next turn.
fn summarize_result(message: &ChatMessage, calls: &Vec<ToolCall>) -> (r: ToolResultSummary)
    ensures
        r@ == result_summary(message@, ToolCall::views(calls@)),
{
    let content: String = match &message.content {
        Some(c) => c.clone(),
        None => String::new(),
    };
    let name: Option<String> = match &message.tool_call_id {
        Some(id) => find_call_name(calls, id.as_str()),
        None => None,
    };
    let tool_name: String = match name {
        Some(n) => n,
        None => "unknown".to_owned(),
    };
    let summary: String = if text::len_bytes(content.as_str()) > 120 {
        text::cat2(safe_truncate(content.as_str(), 117), "...")
    } else {
        content.clone()
    };
    let head = text::trim_start_str(content.as_str());
    let success: bool = !text::starts_with_str(head.as_str(), "Error:");
    ToolResultSummary { tool_name, success, summary }
}

/// The summaries of the tool results of the last turn.
pub fn extract_last_turn_results(history: &Vec<ChatMessage>) -> (results: Vec<ToolResultSummary>)
    ensures
        ToolResultSummary::views(results@) == last_turn_results(ChatMessage::views(history@)),
{
    let ghost all = ChatMessage::views(history@);
    let calls = find_last_calls(history);
    let mut start: usize = history.len();
    while start > 0 && history[start - 1].role == Role::Tool
        invariant
            start <= history.len(),
            all == ChatMessage::views(history@),
            forall|k: int| start <= k < all.len() ==> (#[trigger] all[k]).role == Role::Tool,
        decreases start,
    {
        start -= 1;
        assert(all[start as int] == history@[start as int]@);
    }
    let ghost known = ToolCall::views(calls@);
    let mut results: Vec<ToolResultSummary> = Vec::new();
    let mut i: usize = start;
    assert(start > 0 ==> all.take(start as int).last() == history@[start - 1]@);
    assert(ToolResultSummary::views(results@) =~= trailing_results(all.take(start as int), known));
    while i < history.len()
        invariant
            start <= i <= history.len(),
            all == ChatMessage::views(history@),
            known == ToolCall::views(calls@),
            forall|k: int| start <= k < all.len() ==> (#[trigger] all[k]).role == Role::Tool,
            ToolResultSummary::views(results@) == trailing_results(all.take(i as int), known),
        decreases history.len() - i,
    {
        assert(all.take(i + 1).drop_last() =~= all.take(i as int));
        assert(all.take(i + 1).last() == all[i as int]);
        let ghost before = results@;
        let r = summarize_result(&history[i], &calls);
        results.push(r);
        assert(ToolResultSummary::views(results@) =~= ToolResultSummary::views(before).push(r@));
        i += 1;
    }
    assert(all.take(all.len() as int) =~= all);
    results
}

/// At most the first hundred characters of a text, marked where it is longer.
pub open spec fn excerpt(s: Seq<char>) -> Seq<char> {
    if s.len() > 100 {
        s.take(100) + "..."@
    } else {
        s
    }
}

/// What the user asked for last.
pub open spec fn last_request(history: Seq<ChatMessageView>) -> Option<Seq<char>>
    decreases history.len(),
{
    if history.len() == 0 {
        None
    } else if history.last().role == Role::User {
        match history.last().content {
            Some(c) => Some(excerpt(c)),
            None => None,
        }
    } else {
        last_request(history.drop_last())
    }
}

/// What the user asked for last.
pub fn extract_last_user_message(history: &Vec<ChatMessage>) -> (r: Option<String>)
    ensures
        text::opt_view(r) == last_request(ChatMessage::views(history@)),
{
    let ghost all = ChatMessage::views(history@);
    let mut i: usize = history.len();
    assert(all.take(i as int) =~= all);
    while i > 0
        invariant
            i <= history.len(),
            all == ChatMessage::views(history@),
            last_request(all) == last_request(all.take(i as int)),
        decreases i,
    {
        assert(all.take(i as int).last() == history@[i - 1]@);
        assert(all.take(i as int).drop_last() =~= all.take(i - 1));
        let message = &history[i - 1];
        if message.role == Role::User {
            return match &message.content {
                Some(c) => {
                    let chars = text::chars_of(c.as_str());
                    if chars.len() > 100 {
                        let head = text::string_range(&chars, 0, 100);
                        assert(chars@.subrange(0, 100) =~= chars@.take(100));
                        Some(text::cat2(head.as_str(), "..."))
                    } else {
                        Some(c.clone())
                    }
                },
                None => None,
            };
        }
        i -= 1;
    }
    None
}

} // verus!
