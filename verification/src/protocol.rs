//! The messages that the server and its clients exchange.

use crate::json::{Json, JsonView};
use crate::strmap::StrMap;
use crate::text;
use vstd::prelude::*;

verus! {

#[derive(Debug, Clone, Copy, PartialEq, Eq, Structural)]
pub enum DiffLineKind {
    Removed,
    Added,
    Context,
}

#[derive(Debug, Clone, Copy, PartialEq, Eq, Structural)]
pub enum FileChangeKind {
    Modified,
    Added,
    Removed,
}

/// One line of a shown diff.
#[derive(Debug)]
pub struct DiffLine {
    pub kind: DiffLineKind,
    pub content: String,
}

/// The model of [`DiffLine`].
pub struct DiffLineView {
    pub kind: DiffLineKind,
    pub content: Seq<char>,
}

impl View for DiffLine {
    type V = DiffLineView;

    open spec fn view(&self) -> DiffLineView {
        DiffLineView {
            kind: self.kind,
            content: self.content@,
        }
    }
}

impl Clone for DiffLine {
    fn clone(&self) -> (r: DiffLine)
        ensures
            r@ == self@,
    {
        DiffLine {
            kind: self.kind,
            content: self.content.clone(),
        }
    }
}

impl DiffLine {
    /// The models of a sequence of values.
    pub open spec fn views(v: Seq<DiffLine>) -> Seq<DiffLineView> {
        v.map_values(|x: DiffLine| x@)
    }

    /// A copy of a list.
    pub fn clone_all(v: &Vec<DiffLine>) -> (r: Vec<DiffLine>)
        ensures
            DiffLine::views(r@) == DiffLine::views(v@),
    {
        let mut r: Vec<DiffLine> = Vec::new();
        let mut i: usize = 0;
        while i < v.len()
            invariant
                i <= v.len(),
                r.len() == i,
                forall|k: int| 0 <= k < i ==> (#[trigger] r@[k])@ == v@[k]@,
            decreases v.len() - i,
        {
            r.push(v[i].clone());
            i += 1;
        }
        assert(DiffLine::views(r@) =~= DiffLine::views(v@));
        r
    }
}

/// A change of one file, as it is shown to the user.
#[derive(Debug)]
pub struct FileChange {
    pub path: String,
    pub kind: FileChangeKind,
    pub diff_lines: Vec<DiffLine>,
    /// Whether lines were left out of `diff_lines`.
    pub truncated: bool,
}

/// The model of [`FileChange`].
pub struct FileChangeView {
    pub path: Seq<char>,
    pub kind: FileChangeKind,
    pub diff_lines: Seq<DiffLineView>,
    pub truncated: bool,
}

impl View for FileChange {
    type V = FileChangeView;

    open spec fn view(&self) -> FileChangeView {
        FileChangeView {
            path: self.path@,
            kind: self.kind,
            diff_lines: DiffLine::views(self.diff_lines@),
            truncated: self.truncated,
        }
    }
}

impl Clone for FileChange {
    fn clone(&self) -> (r: FileChange)
        ensures
            r@ == self@,
    {
        FileChange {
            path: self.path.clone(),
            kind: self.kind,
            diff_lines: DiffLine::clone_all(&self.diff_lines),
            truncated: self.truncated,
        }
    }
}

impl FileChange {
    /// The models of a sequence of values.
    pub open spec fn views(v: Seq<FileChange>) -> Seq<FileChangeView> {
        v.map_values(|x: FileChange| x@)
    }

    /// A copy of a list.
    pub fn clone_all(v: &Vec<FileChange>) -> (r: Vec<FileChange>)
        ensures
            FileChange::views(r@) == FileChange::views(v@),
    {
        let mut r: Vec<FileChange> = Vec::new();
        let mut i: usize = 0;
        while i < v.len()
            invariant
                i <= v.len(),
                r.len() == i,
                forall|k: int| 0 <= k < i ==> (#[trigger] r@[k])@ == v@[k]@,
            decreases v.len() - i,
        {
            r.push(v[i].clone());
            i += 1;
        }
        assert(FileChange::views(r@) =~= FileChange::views(v@));
        r
    }

    /// The model of an optional value.
    pub open spec fn opt_view(v: Option<FileChange>) -> Option<FileChangeView> {
        match v {
            Some(w) => Some(w@),
            None => None,
        }
    }

    /// A copy of an optional value.
    pub fn clone_opt(v: &Option<FileChange>) -> (r: Option<FileChange>)
        ensures
            FileChange::opt_view(r) == FileChange::opt_view(*v),
    {
        match v {
            Some(w) => Some(w.clone()),
            None => None,
        }
    }
}

/// How a tool call ended.
#[derive(Debug)]
pub enum ToolStatus {
    Success,
    Failed(String),
}

/// The model of [`ToolStatus`].
pub enum ToolStatusView {
    Success,
    Failed(Seq<char>),
}

impl View for ToolStatus {
    type V = ToolStatusView;

    open spec fn view(&self) -> ToolStatusView {
        match *self {
            ToolStatus::Success => ToolStatusView::Success,
            ToolStatus::Failed(a) => ToolStatusView::Failed(a@),
        }
    }
}

impl Clone for ToolStatus {
    fn clone(&self) -> (r: ToolStatus)
        ensures
            r@ == self@,
    {
        match self {
            ToolStatus::Success => ToolStatus::Success,
            ToolStatus::Failed(a) => ToolStatus::Failed(a.clone()),
        }
    }
}

/// A tool call of a finished turn.
#[derive(Debug)]
pub struct ToolCallDisplay {
    pub id: String,
    pub name: String,
    pub status: ToolStatus,
    pub changes: Vec<FileChange>,
}

/// The model of [`ToolCallDisplay`].
pub struct ToolCallDisplayView {
    pub id: Seq<char>,
    pub name: Seq<char>,
    pub status: ToolStatusView,
    pub changes: Seq<FileChangeView>,
}

impl View for ToolCallDisplay {
    type V = ToolCallDisplayView;

    open spec fn view(&self) -> ToolCallDisplayView {
        ToolCallDisplayView {
            id: self.id@,
            name: self.name@,
            status: self.status@,
            changes: FileChange::views(self.changes@),
        }
    }
}

impl Clone for ToolCallDisplay {
    fn clone(&self) -> (r: ToolCallDisplay)
        ensures
            r@ == self@,
    {
        ToolCallDisplay {
            id: self.id.clone(),
            name: self.name.clone(),
            status: self.status.clone(),
            changes: FileChange::clone_all(&self.changes),
        }
    }
}

impl ToolCallDisplay {
    /// The models of a sequence of values.
    pub open spec fn views(v: Seq<ToolCallDisplay>) -> Seq<ToolCallDisplayView> {
        v.map_values(|x: ToolCallDisplay| x@)
    }

    /// A copy of a list.
    pub fn clone_all(v: &Vec<ToolCallDisplay>) -> (r: Vec<ToolCallDisplay>)
        ensures
            ToolCallDisplay::views(r@) == ToolCallDisplay::views(v@),
    {
        let mut r: Vec<ToolCallDisplay> = Vec::new();
        let mut i: usize = 0;
        while i < v.len()
            invariant
                i <= v.len(),
                r.len() == i,
                forall|k: int| 0 <= k < i ==> (#[trigger] r@[k])@ == v@[k]@,
            decreases v.len() - i,
        {
            r.push(v[i].clone());
            i += 1;
        }
        assert(ToolCallDisplay::views(r@) =~= ToolCallDisplay::views(v@));
        r
    }
}

/// A message of the conversation as clients show it.
#[derive(Debug)]
pub struct HistoryMessage {
    pub role: String,
    pub content: String,
}

/// The model of [`HistoryMessage`].
pub struct HistoryMessageView {
    pub role: Seq<char>,
    pub content: Seq<char>,
}

impl View for HistoryMessage {
    type V = HistoryMessageView;

    open spec fn view(&self) -> HistoryMessageView {
        HistoryMessageView {
            role: self.role@,
            content: self.content@,
        }
    }
}

impl Clone for HistoryMessage {
    fn clone(&self) -> (r: HistoryMessage)
        ensures
            r@ == self@,
    {
        HistoryMessage {
            role: self.role.clone(),
            content: self.content.clone(),
        }
    }
}

impl HistoryMessage {
    /// The models of a sequence of values.
    pub open spec fn views(v: Seq<HistoryMessage>) -> Seq<HistoryMessageView> {
        v.map_values(|x: HistoryMessage| x@)
    }

    /// A copy of a list.
    pub fn clone_all(v: &Vec<HistoryMessage>) -> (r: Vec<HistoryMessage>)
        ensures
            HistoryMessage::views(r@) == HistoryMessage::views(v@),
    {
        let mut r: Vec<HistoryMessage> = Vec::new();
        let mut i: usize = 0;
        while i < v.len()
            invariant
                i <= v.len(),
                r.len() == i,
                forall|k: int| 0 <= k < i ==> (#[trigger] r@[k])@ == v@[k]@,
            decreases v.len() - i,
        {
            r.push(v[i].clone());
            i += 1;
        }
        assert(HistoryMessage::views(r@) =~= HistoryMessage::views(v@));
        r
    }
}

/// A summary that stands for the first messages of a conversation.
#[derive(Debug)]
pub struct CompactionState {
    pub summary: String,
    pub compacted_message_count: usize,
    pub model_provider: String,
    pub model_id: String,
}

/// The model of [`CompactionState`].
pub struct CompactionStateView {
    pub summary: Seq<char>,
    pub compacted_message_count: usize,
    pub model_provider: Seq<char>,
    pub model_id: Seq<char>,
}

impl View for CompactionState {
    type V = CompactionStateView;

    open spec fn view(&self) -> CompactionStateView {
        CompactionStateView {
            summary: self.summary@,
            compacted_message_count: self.compacted_message_count,
            model_provider: self.model_provider@,
            model_id: self.model_id@,
        }
    }
}

impl Clone for CompactionState {
    fn clone(&self) -> (r: CompactionState)
        ensures
            r@ == self@,
    {
        CompactionState {
            summary: self.summary.clone(),
            compacted_message_count: self.compacted_message_count,
            model_provider: self.model_provider.clone(),
            model_id: self.model_id.clone(),
        }
    }
}

impl CompactionState {
    /// The model of an optional value.
    pub open spec fn opt_view(v: Option<CompactionState>) -> Option<CompactionStateView> {
        match v {
            Some(w) => Some(w@),
            None => None,
        }
    }

    /// A copy of an optional value.
    pub fn clone_opt(v: &Option<CompactionState>) -> (r: Option<CompactionState>)
        ensures
            CompactionState::opt_view(r) == CompactionState::opt_view(*v),
    {
        match v {
            Some(w) => Some(w.clone()),
            None => None,
        }
    }
}

/// The answer to a rollback request.
#[derive(Debug)]
pub struct RollbackResultPayload {
    pub success: bool,
    pub message: String,
    pub changes: Vec<FileChange>,
}

/// The model of [`RollbackResultPayload`].
pub struct RollbackResultPayloadView {
    pub success: bool,
    pub message: Seq<char>,
    pub changes: Seq<FileChangeView>,
}

impl View for RollbackResultPayload {
    type V = RollbackResultPayloadView;

    open spec fn view(&self) -> RollbackResultPayloadView {
        RollbackResultPayloadView {
            success: self.success,
            message: self.message@,
            changes: FileChange::views(self.changes@),
        }
    }
}

/// A request to run one turn of the conversation.
#[derive(Debug)]
pub struct ChatRequest {
    pub message: String,
    pub agent: String,
    pub model_override: Option<String>,
    pub provider_override: Option<String>,
    pub history: Vec<HistoryMessage>,
    pub session_id: Option<String>,
    pub workspace_root: Option<String>,
    pub repo_agents_md: Option<String>,
    pub runtime_session_key: Option<String>,
    pub run_id: Option<String>,
    pub compaction: Option<CompactionState>,
}

/// The model of [`ChatRequest`].
pub struct ChatRequestView {
    pub message: Seq<char>,
    pub agent: Seq<char>,
    pub model_override: Option<Seq<char>>,
    pub provider_override: Option<Seq<char>>,
    pub history: Seq<HistoryMessageView>,
    pub session_id: Option<Seq<char>>,
    pub workspace_root: Option<Seq<char>>,
    pub repo_agents_md: Option<Seq<char>>,
    pub runtime_session_key: Option<Seq<char>>,
    pub run_id: Option<Seq<char>>,
    pub compaction: Option<CompactionStateView>,
}

impl View for ChatRequest {
    type V = ChatRequestView;

    open spec fn view(&self) -> ChatRequestView {
        ChatRequestView {
            message: self.message@,
            agent: self.agent@,
            model_override: text::opt_view(self.model_override),
            provider_override: text::opt_view(self.provider_override),
            history: HistoryMessage::views(self.history@),
            session_id: text::opt_view(self.session_id),
            workspace_root: text::opt_view(self.workspace_root),
            repo_agents_md: text::opt_view(self.repo_agents_md),
            runtime_session_key: text::opt_view(self.runtime_session_key),
            run_id: text::opt_view(self.run_id),
            compaction: CompactionState::opt_view(self.compaction),
        }
    }
}

impl Clone for ChatRequest {
    fn clone(&self) -> (r: ChatRequest)
        ensures
            r@ == self@,
    {
        ChatRequest {
            message: self.message.clone(),
            agent: self.agent.clone(),
            model_override: text::clone_opt(&self.model_override),
            provider_override: text::clone_opt(&self.provider_override),
            history: HistoryMessage::clone_all(&self.history),
            session_id: text::clone_opt(&self.session_id),
            workspace_root: text::clone_opt(&self.workspace_root),
            repo_agents_md: text::clone_opt(&self.repo_agents_md),
            runtime_session_key: text::clone_opt(&self.runtime_session_key),
            run_id: text::clone_opt(&self.run_id),
            compaction: CompactionState::clone_opt(&self.compaction),
        }
    }
}

/// A request to summarize the conversation.
#[derive(Debug)]
pub struct CompactRequest {
    pub agent: String,
    pub model_override: Option<String>,
    pub provider_override: Option<String>,
    pub history: Vec<HistoryMessage>,
    pub session_id: Option<String>,
    pub workspace_root: Option<String>,
    pub repo_agents_md: Option<String>,
    pub runtime_session_key: Option<String>,
    pub prior_compaction: Option<CompactionState>,
}

/// The model of [`CompactRequest`].
pub struct CompactRequestView {
    pub agent: Seq<char>,
    pub model_override: Option<Seq<char>>,
    pub provider_override: Option<Seq<char>>,
    pub history: Seq<HistoryMessageView>,
    pub session_id: Option<Seq<char>>,
    pub workspace_root: Option<Seq<char>>,
    pub repo_agents_md: Option<Seq<char>>,
    pub runtime_session_key: Option<Seq<char>>,
    pub prior_compaction: Option<CompactionStateView>,
}

impl View for CompactRequest {
    type V = CompactRequestView;

    open spec fn view(&self) -> CompactRequestView {
        CompactRequestView {
            agent: self.agent@,
            model_override: text::opt_view(self.model_override),
            provider_override: text::opt_view(self.provider_override),
            history: HistoryMessage::views(self.history@),
            session_id: text::opt_view(self.session_id),
            workspace_root: text::opt_view(self.workspace_root),
            repo_agents_md: text::opt_view(self.repo_agents_md),
            runtime_session_key: text::opt_view(self.runtime_session_key),
            prior_compaction: CompactionState::opt_view(self.prior_compaction),
        }
    }
}

impl Clone for CompactRequest {
    fn clone(&self) -> (r: CompactRequest)
        ensures
            r@ == self@,
    {
        CompactRequest {
            agent: self.agent.clone(),
            model_override: text::clone_opt(&self.model_override),
            provider_override: text::clone_opt(&self.provider_override),
            history: HistoryMessage::clone_all(&self.history),
            session_id: text::clone_opt(&self.session_id),
            workspace_root: text::clone_opt(&self.workspace_root),
            repo_agents_md: text::clone_opt(&self.repo_agents_md),
            runtime_session_key: text::clone_opt(&self.runtime_session_key),
            prior_compaction: CompactionState::clone_opt(&self.prior_compaction),
        }
    }
}

/// The answer to a [`CompactRequest`].
#[derive(Debug)]
pub struct CompactResponse {
    pub session_id: String,
    pub compaction: CompactionState,
}

/// The model of [`CompactResponse`].
pub struct CompactResponseView {
    pub session_id: Seq<char>,
    pub compaction: CompactionStateView,
}

impl View for CompactResponse {
    type V = CompactResponseView;

    open spec fn view(&self) -> CompactResponseView {
        CompactResponseView {
            session_id: self.session_id@,
            compaction: self.compaction@,
        }
    }
}

/// A saved session, as it is listed.
#[derive(Debug)]
pub struct SessionInfo {
    pub id: String,
    pub created: String,
    pub model: String,
    pub message_count: usize,
    pub summary: Option<String>,
}

/// The model of [`SessionInfo`].
pub struct SessionInfoView {
    pub id: Seq<char>,
    pub created: Seq<char>,
    pub model: Seq<char>,
    pub message_count: usize,
    pub summary: Option<Seq<char>>,
}

impl View for SessionInfo {
    type V = SessionInfoView;

    open spec fn view(&self) -> SessionInfoView {
        SessionInfoView {
            id: self.id@,
            created: self.created@,
            model: self.model@,
            message_count: self.message_count,
            summary: text::opt_view(self.summary),
        }
    }
}

impl SessionInfo {
    /// The models of a sequence of values.
    pub open spec fn views(v: Seq<SessionInfo>) -> Seq<SessionInfoView> {
        v.map_values(|x: SessionInfo| x@)
    }
}

/// A saved session with its messages.
#[derive(Debug)]
pub struct SessionData {
    pub id: String,
    pub created: String,
    pub model: String,
    pub messages: Vec<HistoryMessage>,
    pub compaction: Option<CompactionState>,
}

/// The model of [`SessionData`].
pub struct SessionDataView {
    pub id: Seq<char>,
    pub created: Seq<char>,
    pub model: Seq<char>,
    pub messages: Seq<HistoryMessageView>,
    pub compaction: Option<CompactionStateView>,
}

impl View for SessionData {
    type V = SessionDataView;

    open spec fn view(&self) -> SessionDataView {
        SessionDataView {
            id: self.id@,
            created: self.created@,
            model: self.model@,
            messages: HistoryMessage::views(self.messages@),
            compaction: CompactionState::opt_view(self.compaction),
        }
    }
}

/// A model that a provider offers.
#[derive(Debug)]
pub struct ModelInfo {
    pub provider: String,
    pub model_id: String,
}

/// The model of [`ModelInfo`].
pub struct ModelInfoView {
    pub provider: Seq<char>,
    pub model_id: Seq<char>,
}

impl View for ModelInfo {
    type V = ModelInfoView;

    open spec fn view(&self) -> ModelInfoView {
        ModelInfoView {
            provider: self.provider@,
            model_id: self.model_id@,
        }
    }
}

impl ModelInfo {
    /// The models of a sequence of values.
    pub open spec fn views(v: Seq<ModelInfo>) -> Seq<ModelInfoView> {
        v.map_values(|x: ModelInfo| x@)
    }
}

/// What a client needs to know of the configuration.
#[derive(Debug)]
pub struct UiConfig {
    pub input_accent: String,
    pub user_accent: String,
    /// The agents that a user can choose.
    pub agent_names: Vec<String>,
    /// The agents that other agents can call.
    pub subagent_names: Vec<String>,
    pub model_info: String,
    /// Provider and model of each agent that a user can choose.
    pub agent_model_info: StrMap<String>,
    pub default_agent: String,
}

/// A message from a client during a run.
#[derive(Debug)]
pub enum ClientEvent {
    PermissionResponse { id: String, allowed: bool, remember: bool },
    Cancel,
    RollbackLast { runtime_session_key: Option<String> },
}

/// The model of [`ClientEvent`].
pub enum ClientEventView {
    PermissionResponse { id: Seq<char>, allowed: bool, remember: bool },
    Cancel,
    RollbackLast { runtime_session_key: Option<Seq<char>> },
}

impl View for ClientEvent {
    type V = ClientEventView;

    open spec fn view(&self) -> ClientEventView {
        match *self {
            ClientEvent::PermissionResponse { id, allowed, remember } => ClientEventView::PermissionResponse { id: id@, allowed, remember },
            ClientEvent::Cancel => ClientEventView::Cancel,
            ClientEvent::RollbackLast { runtime_session_key } => ClientEventView::RollbackLast { runtime_session_key: text::opt_view(runtime_session_key) },
        }
    }
}

/// A message to a client during a run.
#[derive(Debug)]
pub enum ServerEvent {
    RunStarted { run_id: String },
    RunAttached { run_id: String },
    RunDetached { run_id: String },
    TextDelta { data: String },
    ReasoningDelta { data: String },
    ToolStarted { id: String, name: String },
    ToolCompleted { id: String, result: String, changes: Vec<FileChange> },
    ToolFailed { id: String, error: String },
    PermissionRequest { id: String, tool_name: String, args: Json },
    SkillsLoaded { names: Vec<String> },
    SkillSelected { name: String },
    SubagentStarted { id: String, name: String },
    SubagentTextDelta { id: String, data: String },
    SubagentReasoningDelta { id: String, data: String },
    SubagentToolStarted { id: String, sub_id: String, tool_name: String },
    SubagentToolCompleted { id: String, sub_id: String, result: String, changes: Vec<FileChange> },
    SubagentToolFailed { id: String, sub_id: String, error: String },
    SubagentDone { id: String, content: String },
    TurnDone { text: String, tool_calls: Vec<ToolCallDisplay> },
    Done { content: String, tokens_input: u64, tokens_output: u64 },
    Cancelled { content: String, tokens_input: u64, tokens_output: u64 },
    NeedsContinuation { content: String, tokens_input: u64, tokens_output: u64 },
    RollbackResult { success: bool, message: String, changes: Vec<FileChange> },
    Error { message: String },
}

/// The model of [`ServerEvent`].
pub enum ServerEventView {
    RunStarted { run_id: Seq<char> },
    RunAttached { run_id: Seq<char> },
    RunDetached { run_id: Seq<char> },
    TextDelta { data: Seq<char> },
    ReasoningDelta { data: Seq<char> },
    ToolStarted { id: Seq<char>, name: Seq<char> },
    ToolCompleted { id: Seq<char>, result: Seq<char>, changes: Seq<FileChangeView> },
    ToolFailed { id: Seq<char>, error: Seq<char> },
    PermissionRequest { id: Seq<char>, tool_name: Seq<char>, args: JsonView },
    SkillsLoaded { names: Seq<Seq<char>> },
    SkillSelected { name: Seq<char> },
    SubagentStarted { id: Seq<char>, name: Seq<char> },
    SubagentTextDelta { id: Seq<char>, data: Seq<char> },
    SubagentReasoningDelta { id: Seq<char>, data: Seq<char> },
    SubagentToolStarted { id: Seq<char>, sub_id: Seq<char>, tool_name: Seq<char> },
    SubagentToolCompleted { id: Seq<char>, sub_id: Seq<char>, result: Seq<char>, changes: Seq<FileChangeView> },
    SubagentToolFailed { id: Seq<char>, sub_id: Seq<char>, error: Seq<char> },
    SubagentDone { id: Seq<char>, content: Seq<char> },
    TurnDone { text: Seq<char>, tool_calls: Seq<ToolCallDisplayView> },
    Done { content: Seq<char>, tokens_input: u64, tokens_output: u64 },
    Cancelled { content: Seq<char>, tokens_input: u64, tokens_output: u64 },
    NeedsContinuation { content: Seq<char>, tokens_input: u64, tokens_output: u64 },
    RollbackResult { success: bool, message: Seq<char>, changes: Seq<FileChangeView> },
    Error { message: Seq<char> },
}

impl View for ServerEvent {
    type V = ServerEventView;

    open spec fn view(&self) -> ServerEventView {
        match *self {
            ServerEvent::RunStarted { run_id } => ServerEventView::RunStarted { run_id: run_id@ },
            ServerEvent::RunAttached { run_id } => ServerEventView::RunAttached { run_id: run_id@ },
            ServerEvent::RunDetached { run_id } => ServerEventView::RunDetached { run_id: run_id@ },
            ServerEvent::TextDelta { data } => ServerEventView::TextDelta { data: data@ },
            ServerEvent::ReasoningDelta { data } => ServerEventView::ReasoningDelta { data: data@ },
            ServerEvent::ToolStarted { id, name } => ServerEventView::ToolStarted { id: id@, name: name@ },
            ServerEvent::ToolCompleted { id, result, changes } => ServerEventView::ToolCompleted { id: id@, result: result@, changes: FileChange::views(changes@) },
            ServerEvent::ToolFailed { id, error } => ServerEventView::ToolFailed { id: id@, error: error@ },
            ServerEvent::PermissionRequest { id, tool_name, args } => ServerEventView::PermissionRequest { id: id@, tool_name: tool_name@, args: args@ },
            ServerEvent::SkillsLoaded { names } => ServerEventView::SkillsLoaded { names: text::views(names@) },
            ServerEvent::SkillSelected { name } => ServerEventView::SkillSelected { name: name@ },
            ServerEvent::SubagentStarted { id, name } => ServerEventView::SubagentStarted { id: id@, name: name@ },
            ServerEvent::SubagentTextDelta { id, data } => ServerEventView::SubagentTextDelta { id: id@, data: data@ },
            ServerEvent::SubagentReasoningDelta { id, data } => ServerEventView::SubagentReasoningDelta { id: id@, data: data@ },
            ServerEvent::SubagentToolStarted { id, sub_id, tool_name } => ServerEventView::SubagentToolStarted { id: id@, sub_id: sub_id@, tool_name: tool_name@ },
            ServerEvent::SubagentToolCompleted { id, sub_id, result, changes } => ServerEventView::SubagentToolCompleted { id: id@, sub_id: sub_id@, result: result@, changes: FileChange::views(changes@) },
            ServerEvent::SubagentToolFailed { id, sub_id, error } => ServerEventView::SubagentToolFailed { id: id@, sub_id: sub_id@, error: error@ },
            ServerEvent::SubagentDone { id, content } => ServerEventView::SubagentDone { id: id@, content: content@ },
            ServerEvent::TurnDone { text, tool_calls } => ServerEventView::TurnDone { text: text@, tool_calls: ToolCallDisplay::views(tool_calls@) },
            ServerEvent::Done { content, tokens_input, tokens_output } => ServerEventView::Done { content: content@, tokens_input, tokens_output },
            ServerEvent::Cancelled { content, tokens_input, tokens_output } => ServerEventView::Cancelled { content: content@, tokens_input, tokens_output },
            ServerEvent::NeedsContinuation { content, tokens_input, tokens_output } => ServerEventView::NeedsContinuation { content: content@, tokens_input, tokens_output },
            ServerEvent::RollbackResult { success, message, changes } => ServerEventView::RollbackResult { success, message: message@, changes: FileChange::views(changes@) },
            ServerEvent::Error { message } => ServerEventView::Error { message: message@ },
        }
    }
}

impl Clone for ServerEvent {
    fn clone(&self) -> (r: ServerEvent)
        ensures
            r@ == self@,
    {
        match self {
            ServerEvent::RunStarted { run_id } => ServerEvent::RunStarted { run_id: run_id.clone() },
            ServerEvent::RunAttached { run_id } => ServerEvent::RunAttached { run_id: run_id.clone() },
            ServerEvent::RunDetached { run_id } => ServerEvent::RunDetached { run_id: run_id.clone() },
            ServerEvent::TextDelta { data } => ServerEvent::TextDelta { data: data.clone() },
            ServerEvent::ReasoningDelta { data } => ServerEvent::ReasoningDelta { data: data.clone() },
            ServerEvent::ToolStarted { id, name } => ServerEvent::ToolStarted { id: id.clone(), name: name.clone() },
            ServerEvent::ToolCompleted { id, result, changes } => ServerEvent::ToolCompleted { id: id.clone(), result: result.clone(), changes: FileChange::clone_all(changes) },
            ServerEvent::ToolFailed { id, error } => ServerEvent::ToolFailed { id: id.clone(), error: error.clone() },
            ServerEvent::PermissionRequest { id, tool_name, args } => ServerEvent::PermissionRequest { id: id.clone(), tool_name: tool_name.clone(), args: args.clone() },
            ServerEvent::SkillsLoaded { names } => ServerEvent::SkillsLoaded { names: text::clone_strs(names) },
            ServerEvent::SkillSelected { name } => ServerEvent::SkillSelected { name: name.clone() },
            ServerEvent::SubagentStarted { id, name } => ServerEvent::SubagentStarted { id: id.clone(), name: name.clone() },
            ServerEvent::SubagentTextDelta { id, data } => ServerEvent::SubagentTextDelta { id: id.clone(), data: data.clone() },
            ServerEvent::SubagentReasoningDelta { id, data } => ServerEvent::SubagentReasoningDelta { id: id.clone(), data: data.clone() },
            ServerEvent::SubagentToolStarted { id, sub_id, tool_name } => ServerEvent::SubagentToolStarted { id: id.clone(), sub_id: sub_id.clone(), tool_name: tool_name.clone() },
            ServerEvent::SubagentToolCompleted { id, sub_id, result, changes } => ServerEvent::SubagentToolCompleted { id: id.clone(), sub_id: sub_id.clone(), result: result.clone(), changes: FileChange::clone_all(changes) },
            ServerEvent::SubagentToolFailed { id, sub_id, error } => ServerEvent::SubagentToolFailed { id: id.clone(), sub_id: sub_id.clone(), error: error.clone() },
            ServerEvent::SubagentDone { id, content } => ServerEvent::SubagentDone { id: id.clone(), content: content.clone() },
            ServerEvent::TurnDone { text, tool_calls } => ServerEvent::TurnDone { text: text.clone(), tool_calls: ToolCallDisplay::clone_all(tool_calls) },
            ServerEvent::Done { content, tokens_input, tokens_output } => ServerEvent::Done { content: content.clone(), tokens_input: *tokens_input, tokens_output: *tokens_output },
            ServerEvent::Cancelled { content, tokens_input, tokens_output } => ServerEvent::Cancelled { content: content.clone(), tokens_input: *tokens_input, tokens_output: *tokens_output },
            ServerEvent::NeedsContinuation { content, tokens_input, tokens_output } => ServerEvent::NeedsContinuation { content: content.clone(), tokens_input: *tokens_input, tokens_output: *tokens_output },
            ServerEvent::RollbackResult { success, message, changes } => ServerEvent::RollbackResult { success: *success, message: message.clone(), changes: FileChange::clone_all(changes) },
            ServerEvent::Error { message } => ServerEvent::Error { message: message.clone() },
        }
    }
}

impl ServerEvent {
    /// The models of a sequence of values.
    pub open spec fn views(v: Seq<ServerEvent>) -> Seq<ServerEventView> {
        v.map_values(|x: ServerEvent| x@)
    }

    /// A copy of a list.
    pub fn clone_all(v: &Vec<ServerEvent>) -> (r: Vec<ServerEvent>)
        ensures
            ServerEvent::views(r@) == ServerEvent::views(v@),
    {
        let mut r: Vec<ServerEvent> = Vec::new();
        let mut i: usize = 0;
        while i < v.len()
            invariant
                i <= v.len(),
                r.len() == i,
                forall|k: int| 0 <= k < i ==> (#[trigger] r@[k])@ == v@[k]@,
            decreases v.len() - i,
        {
            r.push(v[i].clone());
            i += 1;
        }
        assert(ServerEvent::views(r@) =~= ServerEvent::views(v@));
        r
    }
}

} // verus!
