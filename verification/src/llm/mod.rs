//! Messages, tools and options of a conversation with a language model.

pub mod assembly;
pub mod deepseek;
pub mod github;
pub mod ollama;
pub mod stream;
pub mod wire;

use crate::auth::Auth;
use crate::config;
use crate::config::Config;
use crate::json;
use crate::json::{Json, JsonView};
use crate::protocol::{FileChange, FileChangeView};
use crate::strmap::StrMap;
use crate::text;
use vstd::prelude::*;

verus! {

/// Who a message comes from.
#[derive(Debug, Clone, Copy, PartialEq, Eq, Structural)]
pub enum Role {
    System,
    User,
    Assistant,
    Tool,
}

/// The name of a role.
pub open spec fn role_name(role: Role) -> Seq<char> {
    match role {
        Role::System => "system"@,
        Role::User => "user"@,
        Role::Assistant => "assistant"@,
        Role::Tool => "tool"@,
    }
}

impl Role {
    /// The name of the role.
    pub fn display(&self) -> (s: String)
        ensures
            s@ == role_name(*self),
    {
        match self {
            Role::System => "system".to_owned(),
            Role::User => "user".to_owned(),
            Role::Assistant => "assistant".to_owned(),
            Role::Tool => "tool".to_owned(),
        }
    }
}

/// How many tokens a request took.
#[derive(Debug, Clone, Copy, PartialEq, Eq, Structural)]
pub struct Usage {
    pub prompt_tokens: u64,
    pub completion_tokens: u64,
    pub total_tokens: u64,
}

impl Default for Usage {
    fn default() -> (u: Usage)
        ensures
            u == (Usage { prompt_tokens: 0, completion_tokens: 0, total_tokens: 0 }),
    {
        Usage { prompt_tokens: 0, completion_tokens: 0, total_tokens: 0 }
    }
}

/// What a tool did to a file.
#[derive(Debug, Clone, Copy, PartialEq, Eq, Structural)]
pub enum RollbackKind {
    /// The file was there and was modified.
    Modified,
    /// The file was created.
    Added,
    /// The file was deleted.
    Removed,
}

/// The function that a tool call names.
#[derive(Debug)]
pub struct ToolFunction {
    pub name: String,
    /// The arguments, as JSON text.
    pub arguments: String,
}

/// The model of [`ToolFunction`].
pub struct ToolFunctionView {
    pub name: Seq<char>,
    pub arguments: Seq<char>,
}

impl View for ToolFunction {
    type V = ToolFunctionView;

    open spec fn view(&self) -> ToolFunctionView {
        ToolFunctionView {
            name: self.name@,
            arguments: self.arguments@,
        }
    }
}

impl Clone for ToolFunction {
    fn clone(&self) -> (r: ToolFunction)
        ensures
            r@ == self@,
    {
        ToolFunction {
            name: self.name.clone(),
            arguments: self.arguments.clone(),
        }
    }
}

/// A tool call that the model asks for.
#[derive(Debug)]
pub struct ToolCall {
    pub id: String,
    pub call_type: String,
    pub function: ToolFunction,
}

/// The model of [`ToolCall`].
pub struct ToolCallView {
    pub id: Seq<char>,
    pub call_type: Seq<char>,
    pub function: ToolFunctionView,
}

impl View for ToolCall {
    type V = ToolCallView;

    open spec fn view(&self) -> ToolCallView {
        ToolCallView {
            id: self.id@,
            call_type: self.call_type@,
            function: self.function@,
        }
    }
}

impl Clone for ToolCall {
    fn clone(&self) -> (r: ToolCall)
        ensures
            r@ == self@,
    {
        ToolCall {
            id: self.id.clone(),
            call_type: self.call_type.clone(),
            function: self.function.clone(),
        }
    }
}

impl ToolCall {
    /// The models of a sequence of values.
    pub open spec fn views(v: Seq<ToolCall>) -> Seq<ToolCallView> {
        v.map_values(|x: ToolCall| x@)
    }

    /// A copy of a list.
    pub fn clone_all(v: &Vec<ToolCall>) -> (r: Vec<ToolCall>)
        ensures
            ToolCall::views(r@) == ToolCall::views(v@),
    {
        let mut r: Vec<ToolCall> = Vec::new();
        let mut i: usize = 0;
        while i < v.len()
            invariant
                i <= v.len(),
                r.len() == i,
                forall|k: int| 0 <= k < i ==> (#[trigger] r@[k])@ == v@[k]@,
            decreases v.len() - i,
        {
            r.push(v[i].clone());
            i += 1;
        }
        assert(ToolCall::views(r@) =~= ToolCall::views(v@));
        r
    }

    /// The models of an optional list.
    pub open spec fn opt_views(v: Option<Vec<ToolCall>>) -> Option<Seq<ToolCallView>> {
        match v {
            Some(w) => Some(ToolCall::views(w@)),
            None => None,
        }
    }

    /// A copy of an optional list.
    pub fn clone_opt_all(v: &Option<Vec<ToolCall>>) -> (r: Option<Vec<ToolCall>>)
        ensures
            ToolCall::opt_views(r) == ToolCall::opt_views(*v),
    {
        match v {
            Some(w) => Some(ToolCall::clone_all(w)),
            None => None,
        }
    }
}

/// What a tool is called and which arguments it takes.
#[derive(Debug)]
pub struct ToolFunctionDef {
    pub name: String,
    pub description: String,
    /// The JSON schema of the arguments.
    pub parameters: Json,
}

/// The model of [`ToolFunctionDef`].
pub struct ToolFunctionDefView {
    pub name: Seq<char>,
    pub description: Seq<char>,
    pub parameters: JsonView,
}

impl View for ToolFunctionDef {
    type V = ToolFunctionDefView;

    open spec fn view(&self) -> ToolFunctionDefView {
        ToolFunctionDefView {
            name: self.name@,
            description: self.description@,
            parameters: self.parameters@,
        }
    }
}

impl Clone for ToolFunctionDef {
    fn clone(&self) -> (r: ToolFunctionDef)
        ensures
            r@ == self@,
    {
        ToolFunctionDef {
            name: self.name.clone(),
            description: self.description.clone(),
            parameters: self.parameters.clone(),
        }
    }
}

/// A tool as it is offered to the model.
#[derive(Debug)]
pub struct ToolDef {
    pub def_type: String,
    pub function: ToolFunctionDef,
}

/// The model of [`ToolDef`].
pub struct ToolDefView {
    pub def_type: Seq<char>,
    pub function: ToolFunctionDefView,
}

impl View for ToolDef {
    type V = ToolDefView;

    open spec fn view(&self) -> ToolDefView {
        ToolDefView {
            def_type: self.def_type@,
            function: self.function@,
        }
    }
}

impl Clone for ToolDef {
    fn clone(&self) -> (r: ToolDef)
        ensures
            r@ == self@,
    {
        ToolDef {
            def_type: self.def_type.clone(),
            function: self.function.clone(),
        }
    }
}

impl ToolDef {
    /// The models of a sequence of values.
    pub open spec fn views(v: Seq<ToolDef>) -> Seq<ToolDefView> {
        v.map_values(|x: ToolDef| x@)
    }

    /// A copy of a list.
    pub fn clone_all(v: &Vec<ToolDef>) -> (r: Vec<ToolDef>)
        ensures
            ToolDef::views(r@) == ToolDef::views(v@),
    {
        let mut r: Vec<ToolDef> = Vec::new();
        let mut i: usize = 0;
        while i < v.len()
            invariant
                i <= v.len(),
                r.len() == i,
                forall|k: int| 0 <= k < i ==> (#[trigger] r@[k])@ == v@[k]@,
            decreases v.len() - i,
        {
            r.push(v[i].clone());
            i += 1;
        }
        assert(ToolDef::views(r@) =~= ToolDef::views(v@));
        r
    }
}

/// A message of a conversation with the model.
#[derive(Debug)]
pub struct ChatMessage {
    pub role: Role,
    pub content: Option<String>,
    pub tool_calls: Option<Vec<ToolCall>>,
    pub tool_call_id: Option<String>,
    /// What the model thought before it answered; it is handed back with the
    /// message in later requests.
    pub reasoning_content: Option<String>,
}

/// The model of [`ChatMessage`].
pub struct ChatMessageView {
    pub role: Role,
    pub content: Option<Seq<char>>,
    pub tool_calls: Option<Seq<ToolCallView>>,
    pub tool_call_id: Option<Seq<char>>,
    pub reasoning_content: Option<Seq<char>>,
}

impl View for ChatMessage {
    type V = ChatMessageView;

    open spec fn view(&self) -> ChatMessageView {
        ChatMessageView {
            role: self.role,
            content: text::opt_view(self.content),
            tool_calls: ToolCall::opt_views(self.tool_calls),
            tool_call_id: text::opt_view(self.tool_call_id),
            reasoning_content: text::opt_view(self.reasoning_content),
        }
    }
}

impl Clone for ChatMessage {
    fn clone(&self) -> (r: ChatMessage)
        ensures
            r@ == self@,
    {
        ChatMessage {
            role: self.role,
            content: text::clone_opt(&self.content),
            tool_calls: ToolCall::clone_opt_all(&self.tool_calls),
            tool_call_id: text::clone_opt(&self.tool_call_id),
            reasoning_content: text::clone_opt(&self.reasoning_content),
        }
    }
}

impl ChatMessage {
    /// The models of a sequence of values.
    pub open spec fn views(v: Seq<ChatMessage>) -> Seq<ChatMessageView> {
        v.map_values(|x: ChatMessage| x@)
    }

    /// A copy of a list.
    pub fn clone_all(v: &Vec<ChatMessage>) -> (r: Vec<ChatMessage>)
        ensures
            ChatMessage::views(r@) == ChatMessage::views(v@),
    {
        let mut r: Vec<ChatMessage> = Vec::new();
        let mut i: usize = 0;
        while i < v.len()
            invariant
                i <= v.len(),
                r.len() == i,
                forall|k: int| 0 <= k < i ==> (#[trigger] r@[k])@ == v@[k]@,
            decreases v.len() - i,
        {
            r.push(v[i].clone());
            i += 1;
        }
        assert(ChatMessage::views(r@) =~= ChatMessage::views(v@));
        r
    }
}

/// How the model is to be asked.
#[derive(Debug)]
pub struct ChatOptions {
    pub model_id: String,
    /// The bits of the single-precision sampling temperature.
    pub temperature: u32,
    pub max_tokens: u32,
    pub tools: Vec<ToolDef>,
}

/// The model of [`ChatOptions`].
pub struct ChatOptionsView {
    pub model_id: Seq<char>,
    pub temperature: u32,
    pub max_tokens: u32,
    pub tools: Seq<ToolDefView>,
}

impl View for ChatOptions {
    type V = ChatOptionsView;

    open spec fn view(&self) -> ChatOptionsView {
        ChatOptionsView {
            model_id: self.model_id@,
            temperature: self.temperature,
            max_tokens: self.max_tokens,
            tools: ToolDef::views(self.tools@),
        }
    }
}

impl Clone for ChatOptions {
    fn clone(&self) -> (r: ChatOptions)
        ensures
            r@ == self@,
    {
        ChatOptions {
            model_id: self.model_id.clone(),
            temperature: self.temperature,
            max_tokens: self.max_tokens,
            tools: ToolDef::clone_all(&self.tools),
        }
    }
}

/// The answer of the model to one request.
#[derive(Debug)]
pub struct ChatResult {
    pub content: Option<String>,
    pub tool_calls: Vec<ToolCall>,
    pub usage: Usage,
    pub reasoning_content: Option<String>,
    /// Why the model stopped, in the provider's words.
    pub finish_reason: Option<String>,
}

/// The model of [`ChatResult`].
pub struct ChatResultView {
    pub content: Option<Seq<char>>,
    pub tool_calls: Seq<ToolCallView>,
    pub usage: Usage,
    pub reasoning_content: Option<Seq<char>>,
    pub finish_reason: Option<Seq<char>>,
}

impl View for ChatResult {
    type V = ChatResultView;

    open spec fn view(&self) -> ChatResultView {
        ChatResultView {
            content: text::opt_view(self.content),
            tool_calls: ToolCall::views(self.tool_calls@),
            usage: self.usage,
            reasoning_content: text::opt_view(self.reasoning_content),
            finish_reason: text::opt_view(self.finish_reason),
        }
    }
}

impl Clone for ChatResult {
    fn clone(&self) -> (r: ChatResult)
        ensures
            r@ == self@,
    {
        ChatResult {
            content: text::clone_opt(&self.content),
            tool_calls: ToolCall::clone_all(&self.tool_calls),
            usage: self.usage,
            reasoning_content: text::clone_opt(&self.reasoning_content),
            finish_reason: text::clone_opt(&self.finish_reason),
        }
    }
}

/// What a stream of the model's answer hands out.
#[derive(Debug)]
pub enum StreamEvent {
    Chunk(String),
    ReasoningChunk(String),
    Done(ChatResult),
}

/// The model of [`StreamEvent`].
pub enum StreamEventView {
    Chunk(Seq<char>),
    ReasoningChunk(Seq<char>),
    Done(ChatResultView),
}

impl View for StreamEvent {
    type V = StreamEventView;

    open spec fn view(&self) -> StreamEventView {
        match *self {
            StreamEvent::Chunk(a) => StreamEventView::Chunk(a@),
            StreamEvent::ReasoningChunk(a) => StreamEventView::ReasoningChunk(a@),
            StreamEvent::Done(a) => StreamEventView::Done(a@),
        }
    }
}

impl Clone for StreamEvent {
    fn clone(&self) -> (r: StreamEvent)
        ensures
            r@ == self@,
    {
        match self {
            StreamEvent::Chunk(a) => StreamEvent::Chunk(a.clone()),
            StreamEvent::ReasoningChunk(a) => StreamEvent::ReasoningChunk(a.clone()),
            StreamEvent::Done(a) => StreamEvent::Done(a.clone()),
        }
    }
}

impl StreamEvent {
    /// The models of a sequence of values.
    pub open spec fn views(v: Seq<StreamEvent>) -> Seq<StreamEventView> {
        v.map_values(|x: StreamEvent| x@)
    }
}

/// What is needed to undo a change of one file.
#[derive(Debug)]
pub struct RollbackEntry {
    pub path: String,
    pub kind: RollbackKind,
    pub before_content: Option<String>,
    /// The hash of the content that the tool left behind.
    pub expected_after_hash: Option<u64>,
}

/// The model of [`RollbackEntry`].
pub struct RollbackEntryView {
    pub path: Seq<char>,
    pub kind: RollbackKind,
    pub before_content: Option<Seq<char>>,
    pub expected_after_hash: Option<u64>,
}

impl View for RollbackEntry {
    type V = RollbackEntryView;

    open spec fn view(&self) -> RollbackEntryView {
        RollbackEntryView {
            path: self.path@,
            kind: self.kind,
            before_content: text::opt_view(self.before_content),
            expected_after_hash: self.expected_after_hash,
        }
    }
}

impl Clone for RollbackEntry {
    fn clone(&self) -> (r: RollbackEntry)
        ensures
            r@ == self@,
    {
        RollbackEntry {
            path: self.path.clone(),
            kind: self.kind,
            before_content: text::clone_opt(&self.before_content),
            expected_after_hash: self.expected_after_hash,
        }
    }
}

impl RollbackEntry {
    /// The models of a sequence of values.
    pub open spec fn views(v: Seq<RollbackEntry>) -> Seq<RollbackEntryView> {
        v.map_values(|x: RollbackEntry| x@)
    }

    /// A copy of a list.
    pub fn clone_all(v: &Vec<RollbackEntry>) -> (r: Vec<RollbackEntry>)
        ensures
            RollbackEntry::views(r@) == RollbackEntry::views(v@),
    {
        let mut r: Vec<RollbackEntry> = Vec::new();
        let mut i: usize = 0;
        while i < v.len()
            invariant
                i <= v.len(),
                r.len() == i,
                forall|k: int| 0 <= k < i ==> (#[trigger] r@[k])@ == v@[k]@,
            decreases v.len() - i,
        {
            r.push(v[i].clone());
            i += 1;
        }
        assert(RollbackEntry::views(r@) =~= RollbackEntry::views(v@));
        r
    }
}

/// What a tool did.
#[derive(Debug)]
pub struct ToolExecutionResult {
    pub output: String,
    pub changes: Vec<FileChange>,
    /// What is needed to undo it; it does not leave the server.
    pub rollback_entries: Vec<RollbackEntry>,
}

/// The model of [`ToolExecutionResult`].
pub struct ToolExecutionResultView {
    pub output: Seq<char>,
    pub changes: Seq<FileChangeView>,
    pub rollback_entries: Seq<RollbackEntryView>,
}

impl View for ToolExecutionResult {
    type V = ToolExecutionResultView;

    open spec fn view(&self) -> ToolExecutionResultView {
        ToolExecutionResultView {
            output: self.output@,
            changes: FileChange::views(self.changes@),
            rollback_entries: RollbackEntry::views(self.rollback_entries@),
        }
    }
}

/// A message that holds text alone.
pub open spec fn text_message(role: Role, content: Seq<char>) -> ChatMessageView {
    ChatMessageView {
        role,
        content: Some(content),
        tool_calls: None,
        tool_call_id: None,
        reasoning_content: None,
    }
}

/// The message that answers the tool call `id`.
pub open spec fn result_message(id: Seq<char>, content: Seq<char>) -> ChatMessageView {
    ChatMessageView {
        role: Role::Tool,
        content: Some(content),
        tool_calls: None,
        tool_call_id: Some(id),
        reasoning_content: None,
    }
}

/// The message in which the model asks for tool calls.
pub open spec fn calls_message(
    calls: Seq<ToolCallView>,
    content: Option<Seq<char>>,
    reasoning: Option<Seq<char>>,
) -> ChatMessageView {
    ChatMessageView {
        role: Role::Assistant,
        content,
        tool_calls: Some(calls),
        tool_call_id: None,
        reasoning_content: reasoning,
    }
}

impl ChatMessage {
    fn of_text(role: Role, content: &str) -> (m: ChatMessage)
        ensures
            m@ == text_message(role, content@),
    {
        ChatMessage {
            role,
            content: Some(content.to_owned()),
            tool_calls: None,
            tool_call_id: None,
            reasoning_content: None,
        }
    }

    /// A message of the system prompt.
    pub fn system(content: &str) -> (m: ChatMessage)
        ensures
            m@ == text_message(Role::System, content@),
    {
        ChatMessage::of_text(Role::System, content)
    }

    /// A message of the user.
    pub fn user(content: &str) -> (m: ChatMessage)
        ensures
            m@ == text_message(Role::User, content@),
    {
        ChatMessage::of_text(Role::User, content)
    }

    /// An answer of the model without tool calls.
    pub fn assistant_text(content: &str) -> (m: ChatMessage)
        ensures
            m@ == text_message(Role::Assistant, content@),
    {
        ChatMessage::of_text(Role::Assistant, content)
    }

    /// A message in which the model asks for tool calls.
    pub fn assistant_tool_calls(calls: Vec<ToolCall>) -> (m: ChatMessage)
        ensures
            m@ == calls_message(ToolCall::views(calls@), None, None),
    {
        ChatMessage::assistant_tool_calls_with_content(calls, None)
    }

    /// A message in which the model asks for tool calls beside some text.
    pub fn assistant_tool_calls_with_content(
        calls: Vec<ToolCall>,
        content: Option<String>,
    ) -> (m: ChatMessage)
        ensures
            m@ == calls_message(ToolCall::views(calls@), text::opt_view(content), None),
    {
        ChatMessage {
            role: Role::Assistant,
            content,
            tool_calls: Some(calls),
            tool_call_id: None,
            reasoning_content: None,
        }
    }

    /// The result of a tool call.
    pub fn tool_result(tool_call_id: &str, content: &str) -> (m: ChatMessage)
        ensures
            m@ == result_message(tool_call_id@, content@),
    {
        ChatMessage {
            role: Role::Tool,
            content: Some(content.to_owned()),
            tool_calls: None,
            tool_call_id: Some(tool_call_id.to_owned()),
            reasoning_content: None,
        }
    }
}

/// A member of an object that is left out where there is no value.
pub open spec fn opt_member(
    members: Seq<(Seq<char>, JsonView)>,
    key: Seq<char>,
    value: Option<Seq<char>>,
) -> Seq<(Seq<char>, JsonView)> {
    match value {
        Some(v) => members.push((key, JsonView::Text(v))),
        None => members,
    }
}

/// A tool call on the wire.
pub open spec fn call_json(call: ToolCallView) -> JsonView {
    JsonView::Object(
        seq![
            ("id"@, JsonView::Text(call.id)),
            ("type"@, JsonView::Text(call.call_type)),
            (
                "function"@,
                JsonView::Object(
                    seq![
                        ("name"@, JsonView::Text(call.function.name)),
                        ("arguments"@, JsonView::Text(call.function.arguments)),
                    ],
                ),
            ),
        ],
    )
}

/// A message on the wire: what it does not hold is left out.
pub open spec fn message_json(message: ChatMessageView) -> JsonView {
    let start = opt_member(
        seq![("role"@, JsonView::Text(role_name(message.role)))],
        "content"@,
        message.content,
    );
    let called = match message.tool_calls {
        Some(calls) => start.push(
            ("tool_calls"@, JsonView::List(calls.map_values(|c: ToolCallView| call_json(c)))),
        ),
        None => start,
    };
    JsonView::Object(
        opt_member(
            opt_member(called, "tool_call_id"@, message.tool_call_id),
            "reasoning_content"@,
            message.reasoning_content,
        ),
    )
}

/// A tool on the wire.
pub open spec fn def_json(def: ToolDefView) -> JsonView {
    JsonView::Object(
        seq![
            ("type"@, JsonView::Text(def.def_type)),
            (
                "function"@,
                JsonView::Object(
                    seq![
                        ("name"@, JsonView::Text(def.function.name)),
                        ("description"@, JsonView::Text(def.function.description)),
                        ("parameters"@, def.function.parameters),
                    ],
                ),
            ),
        ],
    )
}

/// Some messages on the wire.
pub open spec fn messages_json(messages: Seq<ChatMessageView>) -> JsonView {
    JsonView::List(messages.map_values(|m: ChatMessageView| message_json(m)))
}

/// Some tools on the wire.
pub open spec fn defs_json(defs: Seq<ToolDefView>) -> JsonView {
    JsonView::List(defs.map_values(|d: ToolDefView| def_json(d)))
}

fn push_opt(members: &mut Vec<(String, Json)>, key: &str, value: &Option<String>)
    ensures
        json::members_view(final(members)@) == opt_member(
            json::members_view(old(members)@),
            key@,
            text::opt_view(*value),
        ),
{
    match value {
        Some(v) => Json::push_member(members, key, Json::string(v.as_str())),
        None => {},
    }
}

impl ToolCall {
    /// The tool call on the wire.
    pub fn to_json(&self) -> (j: Json)
        ensures
            j@ == call_json(self@),
    {
        let mut function = Json::no_members();
        Json::push_member(&mut function, "name", Json::string(self.function.name.as_str()));
        Json::push_member(
            &mut function,
            "arguments",
            Json::string(self.function.arguments.as_str()),
        );
        let mut call = Json::no_members();
        Json::push_member(&mut call, "id", Json::string(self.id.as_str()));
        Json::push_member(&mut call, "type", Json::string(self.call_type.as_str()));
        let function = Json::object(function);
        assert(function@->Object_0 =~= call_json(self@)->Object_0[2].1->Object_0);
        Json::push_member(&mut call, "function", function);
        let j = Json::object(call);
        assert(j@->Object_0 =~= call_json(self@)->Object_0);
        j
    }
}

impl ChatMessage {
    /// The message on the wire.
    pub fn to_json(&self) -> (j: Json)
        ensures
            j@ == message_json(self@),
    {
        let mut members = Json::no_members();
        Json::push_member(&mut members, "role", Json::string(self.role.display().as_str()));
        assert(json::members_view(members@) =~= seq![
            ("role"@, JsonView::Text(role_name(self.role))),
        ]);
        push_opt(&mut members, "content", &self.content);
        match &self.tool_calls {
            Some(calls) => {
                let mut items: Vec<Json> = Vec::new();
                let mut i: usize = 0;
                while i < calls.len()
                    invariant
                        i <= calls.len(),
                        items.len() == i,
                        forall|k: int|
                            0 <= k < i ==> (#[trigger] items@[k])@ == call_json(calls@[k]@),
                    decreases calls.len() - i,
                {
                    items.push(calls[i].to_json());
                    i += 1;
                }
                assert(json::items_view(items@) =~= ToolCall::views(calls@).map_values(
                    |c: ToolCallView| call_json(c),
                ));
                Json::push_member(&mut members, "tool_calls", Json::list(items));
            },
            None => {},
        }
        push_opt(&mut members, "tool_call_id", &self.tool_call_id);
        push_opt(&mut members, "reasoning_content", &self.reasoning_content);
        Json::object(members)
    }

    /// Some messages on the wire.
    pub fn all_to_json(messages: &Vec<ChatMessage>) -> (j: Json)
        ensures
            j@ == messages_json(ChatMessage::views(messages@)),
    {
        let mut items: Vec<Json> = Vec::new();
        let mut i: usize = 0;
        while i < messages.len()
            invariant
                i <= messages.len(),
                items.len() == i,
                forall|k: int|
                    0 <= k < i ==> (#[trigger] items@[k])@ == message_json(messages@[k]@),
            decreases messages.len() - i,
        {
            items.push(messages[i].to_json());
            i += 1;
        }
        assert(json::items_view(items@) =~= ChatMessage::views(messages@).map_values(
            |m: ChatMessageView| message_json(m),
        ));
        Json::list(items)
    }
}

impl ToolDef {
    /// The tool on the wire.
    pub fn to_json(&self) -> (j: Json)
        ensures
            j@ == def_json(self@),
    {
        let mut function = Json::no_members();
        Json::push_member(&mut function, "name", Json::string(self.function.name.as_str()));
        Json::push_member(
            &mut function,
            "description",
            Json::string(self.function.description.as_str()),
        );
        Json::push_member(&mut function, "parameters", self.function.parameters.clone());
        let mut def = Json::no_members();
        Json::push_member(&mut def, "type", Json::string(self.def_type.as_str()));
        let function = Json::object(function);
        assert(function@->Object_0 =~= def_json(self@)->Object_0[1].1->Object_0);
        Json::push_member(&mut def, "function", function);
        let j = Json::object(def);
        assert(j@->Object_0 =~= def_json(self@)->Object_0);
        j
    }

    /// Some tools on the wire.
    pub fn all_to_json(defs: &Vec<ToolDef>) -> (j: Json)
        ensures
            j@ == defs_json(ToolDef::views(defs@)),
    {
        let mut items: Vec<Json> = Vec::new();
        let mut i: usize = 0;
        while i < defs.len()
            invariant
                i <= defs.len(),
                items.len() == i,
                forall|k: int| 0 <= k < i ==> (#[trigger] items@[k])@ == def_json(defs@[k]@),
            decreases defs.len() - i,
        {
            items.push(defs[i].to_json());
            i += 1;
        }
        assert(json::items_view(items@) =~= ToolDef::views(defs@).map_values(
            |d: ToolDefView| def_json(d),
        ));
        Json::list(items)
    }
}

/// The bits of the single-precision number 0.3.
pub const DEFAULT_TEMPERATURE_BITS: u32 = 0x3e99_999a;

impl Default for ChatOptions {
    fn default() -> (o: ChatOptions)
        ensures
            o@ == (ChatOptionsView {
                model_id: "unknown"@,
                temperature: DEFAULT_TEMPERATURE_BITS,
                max_tokens: 4096,
                tools: Seq::empty(),
            }),
    {
        let o = ChatOptions {
            model_id: "unknown".to_owned(),
            temperature: DEFAULT_TEMPERATURE_BITS,
            max_tokens: 4096,
            tools: Vec::new(),
        };
        assert(o@.tools =~= Seq::empty());
        o
    }
}

/// A provider of language models.
#[derive(Debug)]
pub enum Provider {
    DeepSeek(deepseek::DeepSeekProvider),
    GitHub(github::GitHubModelsProvider),
    Ollama(ollama::OllamaProvider),
}

/// The model of [`Provider`].
pub enum ProviderView {
    DeepSeek(deepseek::DeepSeekProviderView),
    GitHub { token: Seq<char>, base_url: Seq<char> },
    Ollama { base_url: Seq<char> },
}

impl View for Provider {
    type V = ProviderView;

    open spec fn view(&self) -> ProviderView {
        match *self {
            Provider::DeepSeek(p) => ProviderView::DeepSeek(p@),
            Provider::GitHub(p) => ProviderView::GitHub { token: p.token@, base_url: p.base_url@ },
            Provider::Ollama(p) => ProviderView::Ollama { base_url: p.base_url@ },
        }
    }
}

/// The provider with DeepSeek's interface that goes by a name.
pub open spec fn known_provider(
    config: Config,
    auth: Auth,
    env: Map<Seq<char>, String>,
    name: Seq<char>,
) -> Option<Result<deepseek::DeepSeekProviderView, Seq<char>>> {
    let key = config::provider_key(auth, name, env);
    let url = config::provider_url(name);
    if name == "deepseek"@ {
        Some(
            deepseek::deepseek().found(config.deepseek_key(auth, env), config.deepseek_url(env)),
        )
    } else if name == "glm"@ {
        Some(deepseek::glm().found(key, url))
    } else if name == "kimi"@ {
        Some(deepseek::kimi().found(key, url))
    } else if name == "minimax"@ {
        Some(deepseek::minimax().found(key, url))
    } else {
        None
    }
}

/// The provider that goes by a name.
pub open spec fn provider_for(
    config: Config,
    auth: Auth,
    env: Map<Seq<char>, String>,
    name: Seq<char>,
) -> Result<ProviderView, Seq<char>> {
    match known_provider(config, auth, env, name) {
        Some(Ok(p)) => Ok(ProviderView::DeepSeek(p)),
        Some(Err(e)) => Err(e),
        None => if name == "github"@ {
            match config::github_token(auth, env) {
                Ok(token) => Ok(ProviderView::GitHub { token, base_url: config.github_url(env) }),
                Err(e) => Err(e),
            }
        } else if name == "ollama"@ {
            match config.ollama_url(env) {
                Ok(base_url) => Ok(ProviderView::Ollama { base_url }),
                Err(e) => Err(e),
            }
        } else {
            Err(
                "Unknown provider '"@ + name
                    + "'. Supported: deepseek, glm, kimi, minimax, ollama"@,
            )
        },
    }
}

/// The model of a provider or of the reason why there is none.
pub open spec fn provider_result(r: Result<Provider, String>) -> Result<ProviderView, Seq<char>> {
    match r {
        Ok(p) => Ok(p@),
        Err(e) => Err(e@),
    }
}

fn like_deepseek(r: Result<deepseek::DeepSeekProvider, String>) -> (p: Result<Provider, String>)
    ensures
        provider_result(p) == match deepseek::provider_result(r) {
            Ok(d) => Ok(ProviderView::DeepSeek(d)),
            Err(e) => Err(e),
        },
{
    match r {
        Ok(d) => Ok(Provider::DeepSeek(d)),
        Err(e) => Err(e),
    }
}

/// The provider that goes by a name.
pub fn build_provider_for(
    config: &Config,
    auth: &Auth,
    env: &StrMap<String>,
    provider_name: &str,
) -> (r: Result<Provider, String>)
    ensures
        provider_result(r) == provider_for(*config, *auth, env@, provider_name@),
{
    if text::same(provider_name, "deepseek") {
        like_deepseek(deepseek::DeepSeekProvider::new(config, auth, env))
    } else if text::same(provider_name, "glm") {
        like_deepseek(deepseek::DeepSeekProvider::new_glm(config, auth, env))
    } else if text::same(provider_name, "kimi") {
        like_deepseek(deepseek::DeepSeekProvider::new_kimi(config, auth, env))
    } else if text::same(provider_name, "minimax") {
        like_deepseek(deepseek::DeepSeekProvider::new_minimax(config, auth, env))
    } else if text::same(provider_name, "github") {
        match github::GitHubModelsProvider::new(config, auth, env) {
            Ok(p) => Ok(Provider::GitHub(p)),
            Err(e) => Err(e),
        }
    } else if text::same(provider_name, "ollama") {
        match ollama::OllamaProvider::new(config, auth, env) {
            Ok(p) => Ok(Provider::Ollama(p)),
            Err(e) => Err(e),
        }
    } else {
        Err(
            text::cat3(
                "Unknown provider '",
                provider_name,
                "'. Supported: deepseek, glm, kimi, minimax, ollama",
            ),
        )
    }
}

} // verus!
