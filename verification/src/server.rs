//! What the server keeps while it runs, and what it does with events.

pub mod admission;
pub mod compaction;
pub mod requests;
pub mod rollback;
pub mod runs;

use crate::agent::{AgentEvent, AgentEventView};
use crate::llm::{ChatMessage, ChatMessageView, RollbackEntry, RollbackEntryView};
use crate::protocol::{
    ClientEvent, ClientEventView, FileChange, FileChangeView, RollbackResultPayload,
    RollbackResultPayloadView, ServerEvent, ServerEventView, ToolCallDisplay,
};
use crate::strmap::StrMap;
use crate::text;
use crate::tools::subagent;
use vstd::prelude::*;
use vstd::string::*;

verus! {

/// What one tool call did to files, so that it can be undone.
#[derive(Debug)]
pub struct RollbackChangeSet {
    pub id: String,
    pub tool_name: String,
    pub entries: Vec<RollbackEntry>,
    pub display_changes: Vec<FileChange>,
}

/// The model of [`RollbackChangeSet`].
pub struct RollbackChangeSetView {
    pub id: Seq<char>,
    pub tool_name: Seq<char>,
    pub entries: Seq<RollbackEntryView>,
    pub display_changes: Seq<FileChangeView>,
}

impl View for RollbackChangeSet {
    type V = RollbackChangeSetView;

    open spec fn view(&self) -> RollbackChangeSetView {
        RollbackChangeSetView {
            id: self.id@,
            tool_name: self.tool_name@,
            entries: RollbackEntry::views(self.entries@),
            display_changes: FileChange::views(self.display_changes@),
        }
    }
}

impl Clone for RollbackChangeSet {
    fn clone(&self) -> (r: RollbackChangeSet)
        ensures
            r@ == self@,
    {
        RollbackChangeSet {
            id: self.id.clone(),
            tool_name: self.tool_name.clone(),
            entries: RollbackEntry::clone_all(&self.entries),
            display_changes: FileChange::clone_all(&self.display_changes),
        }
    }
}

impl RollbackChangeSet {
    /// The models of a sequence of values.
    pub open spec fn views(v: Seq<RollbackChangeSet>) -> Seq<RollbackChangeSetView> {
        v.map_values(|x: RollbackChangeSet| x@)
    }

    /// A copy of a list.
    pub fn clone_all(v: &Vec<RollbackChangeSet>) -> (r: Vec<RollbackChangeSet>)
        ensures
            RollbackChangeSet::views(r@) == RollbackChangeSet::views(v@),
    {
        let mut r: Vec<RollbackChangeSet> = Vec::new();
        let mut i: usize = 0;
        while i < v.len()
            invariant
                i <= v.len(),
                r.len() == i,
                forall|k: int| 0 <= k < i ==> (#[trigger] r@[k])@ == v@[k]@,
            decreases v.len() - i,
        {
            r.push(v[i].clone());
            i += 1;
        }
        assert(RollbackChangeSet::views(r@) =~= RollbackChangeSet::views(v@));
        r
    }
}

/// What the server keeps for a client.
#[derive(Debug)]
pub struct RuntimeSessionState {
    /// What tool calls did to files, the latest last.
    pub rollback_journal: Vec<RollbackChangeSet>,
    /// The tools that the user allowed for good.
    pub remember_allow_tools: Vec<String>,
}

/// The model of [`RuntimeSessionState`].
pub struct RuntimeSessionStateView {
    pub rollback_journal: Seq<RollbackChangeSetView>,
    pub remember_allow_tools: Seq<Seq<char>>,
}

impl View for RuntimeSessionState {
    type V = RuntimeSessionStateView;

    open spec fn view(&self) -> RuntimeSessionStateView {
        RuntimeSessionStateView {
            rollback_journal: RollbackChangeSet::views(self.rollback_journal@),
            remember_allow_tools: text::views(self.remember_allow_tools@),
        }
    }
}

impl RuntimeSessionStateView {
    /// Nothing is kept.
    pub open spec fn nothing() -> RuntimeSessionStateView {
        RuntimeSessionStateView {
            rollback_journal: Seq::empty(),
            remember_allow_tools: Seq::empty(),
        }
    }

    /// A tool call changed files.
    pub open spec fn with_changes(self, set: RollbackChangeSetView) -> RuntimeSessionStateView {
        RuntimeSessionStateView { rollback_journal: self.rollback_journal.push(set), ..self }
    }

    /// The user allowed a tool for good.
    pub open spec fn with_allowed(self, tool: Seq<char>) -> RuntimeSessionStateView {
        if self.remember_allow_tools.contains(tool) {
            self
        } else {
            RuntimeSessionStateView {
                remember_allow_tools: self.remember_allow_tools.push(tool),
                ..self
            }
        }
    }
}

impl RuntimeSessionState {
    /// Nothing is kept.
    pub fn new() -> (s: RuntimeSessionState)
        ensures
            s@ == RuntimeSessionStateView::nothing(),
    {
        let s = RuntimeSessionState {
            rollback_journal: Vec::new(),
            remember_allow_tools: Vec::new(),
        };
        assert(s@.rollback_journal =~= Seq::empty());
        assert(s@.remember_allow_tools =~= Seq::empty());
        s
    }

    /// Keeps what a tool call did to files.
    pub fn add_changes(&mut self, set: RollbackChangeSet)
        ensures
            final(self)@ == old(self)@.with_changes(set@),
    {
        self.rollback_journal.push(set);
        assert(self@.rollback_journal =~= old(self)@.rollback_journal.push(set@));
    }

    /// Keeps that the user allowed a tool for good.
    pub fn allow(&mut self, tool: String)
        ensures
            final(self)@ == old(self)@.with_allowed(tool@),
    {
        if !text::lists(&self.remember_allow_tools, tool.as_str()) {
            self.remember_allow_tools.push(tool);
            assert(self@.remember_allow_tools =~= old(self)@.remember_allow_tools.push(tool@));
        }
    }
}

/// How a run ended.
#[derive(Debug, Clone, Copy, PartialEq, Eq, Structural)]
pub enum RunStatus {
    Done,
    Cancelled,
    NeedsContinuation,
    Failed,
}

/// How a run ended, where the event is its last.
pub open spec fn status_of(event: ServerEventView) -> Option<RunStatus> {
    match event {
        ServerEventView::Done { .. } => Some(RunStatus::Done),
        ServerEventView::Cancelled { .. } => Some(RunStatus::Cancelled),
        ServerEventView::NeedsContinuation { .. } => Some(RunStatus::NeedsContinuation),
        ServerEventView::Error { .. } => Some(RunStatus::Failed),
        _ => None,
    }
}

/// How a run ended, where the event is its last.
pub fn terminal_status(event: &ServerEvent) -> (r: Option<RunStatus>)
    ensures
        r == status_of(event@),
{
    match event {
        ServerEvent::Done { .. } => Some(RunStatus::Done),
        ServerEvent::Cancelled { .. } => Some(RunStatus::Cancelled),
        ServerEvent::NeedsContinuation { .. } => Some(RunStatus::NeedsContinuation),
        ServerEvent::Error { .. } => Some(RunStatus::Failed),
        _ => None,
    }
}

/// Whether an event is the last of its run.
pub fn is_terminal_event(event: &ServerEvent) -> (b: bool)
    ensures
        b == (status_of(event@) is Some),
{
    terminal_status(event).is_some()
}

/// An agent run, which goes on whether or not a client is attached to it.
#[derive(Debug)]
pub struct ActiveRun {
    pub runtime_session_key: String,
    pub events: Vec<ServerEvent>,
    /// The tools that the user was asked about, by the identifiers of the calls.
    pub pending_permission_tools: StrMap<String>,
}

/// The model of [`ActiveRun`].
#[verifier::ext_equal]
pub struct ActiveRunView {
    pub runtime_session_key: Seq<char>,
    pub events: Seq<ServerEventView>,
    pub pending_permission_tools: Map<Seq<char>, Seq<char>>,
}

impl View for ActiveRun {
    type V = ActiveRunView;

    open spec fn view(&self) -> ActiveRunView {
        ActiveRunView {
            runtime_session_key: self.runtime_session_key@,
            events: ServerEvent::views(self.events@),
            pending_permission_tools: self.pending_permission_tools@.map_values(|s: String| s@),
        }
    }
}

impl ActiveRunView {
    /// A run about which nothing was reported yet.
    pub open spec fn begun(key: Seq<char>) -> ActiveRunView {
        ActiveRunView {
            runtime_session_key: key,
            events: Seq::empty(),
            pending_permission_tools: Map::empty(),
        }
    }

    /// Something is reported.
    pub open spec fn with_event(self, event: ServerEventView) -> ActiveRunView {
        ActiveRunView {
            events: self.events.push(event),
            pending_permission_tools: match event {
                ServerEventView::PermissionRequest { id, tool_name, .. } => {
                    self.pending_permission_tools.insert(id, tool_name)
                },
                _ => self.pending_permission_tools,
            },
            ..self
        }
    }
}

impl ActiveRun {
    /// A run about which nothing was reported yet.
    pub fn new(runtime_session_key: String) -> (r: ActiveRun)
        ensures
            r@ == ActiveRunView::begun(runtime_session_key@),
    {
        let r = ActiveRun {
            runtime_session_key,
            events: Vec::new(),
            pending_permission_tools: StrMap::new(),
        };
        assert(r@ =~= ActiveRunView::begun(runtime_session_key@));
        r
    }

    /// Takes note of an event.
    pub fn add_event(&mut self, event: ServerEvent)
        ensures
            final(self)@ == old(self)@.with_event(event@),
    {
        match &event {
            ServerEvent::PermissionRequest { id, tool_name, .. } => {
                self.pending_permission_tools.insert(id.clone(), tool_name.clone());
            },
            _ => {},
        }
        self.events.push(event);
        assert(self@ =~= old(self)@.with_event(event@));
    }
}

/// The events of a run up to its last one.
pub open spec fn until_end(events: Seq<ServerEventView>) -> Seq<ServerEventView>
    decreases events.len(),
{
    if events.len() == 0 {
        Seq::empty()
    } else if status_of(events[0]) is Some {
        seq![events[0]]
    } else {
        seq![events[0]] + until_end(events.skip(1))
    }
}

/// Whether a run is over.
pub open spec fn is_over(events: Seq<ServerEventView>) -> bool {
    exists|i: int| 0 <= i < events.len() && status_of(#[trigger] events[i]) is Some
}

/// What a client is sent when it attaches to a run.
pub open spec fn replayed(run_id: Seq<char>, events: Seq<ServerEventView>) -> Seq<ServerEventView> {
    if is_over(events) {
        until_end(events)
    } else {
        until_end(events).push(ServerEventView::RunAttached { run_id })
    }
}

/// A client that attaches to a run first gets what happened so far and then
/// what happens next; together that is what a client gets that was attached
/// from the start.
pub proof fn law_late_clients_miss_nothing(
    so_far: Seq<ServerEventView>,
    next: Seq<ServerEventView>,
)
    ensures
        is_over(so_far) ==> until_end(so_far + next) == until_end(so_far),
        !is_over(so_far) ==> until_end(so_far) == so_far && until_end(so_far + next) == so_far
            + until_end(next),
    decreases so_far.len(),
{
    if so_far.len() == 0 {
        assert(so_far + next =~= next);
        assert(so_far + until_end(next) =~= until_end(next));
    } else {
        let rest = so_far.skip(1);
        assert((so_far + next).skip(1) =~= rest + next);
        law_late_clients_miss_nothing(rest, next);
        assert(so_far[0] == (so_far + next)[0]);
        if status_of(so_far[0]) is None {
            if is_over(so_far) {
                let i = choose|i: int|
                    0 <= i < so_far.len() && status_of(#[trigger] so_far[i]) is Some;
                assert(rest[i - 1] == so_far[i]);
            } else {
                assert forall|i: int| 0 <= i < rest.len() implies status_of(#[trigger] rest[i])
                    is None by {
                    assert(rest[i] == so_far[i + 1]);
                }
                assert(seq![so_far[0]] + rest =~= so_far);
                assert(seq![so_far[0]] + (rest + until_end(next)) =~= so_far + until_end(next));
            }
        }
    }
}

/// What a client is told of something that an agent reports.
pub open spec fn told(event: AgentEventView) -> ServerEventView {
    match event {
        AgentEventView::TextDelta(data) => ServerEventView::TextDelta { data },
        AgentEventView::ReasoningDelta(data) => ServerEventView::ReasoningDelta { data },
        AgentEventView::ToolStarted { id, name } => ServerEventView::ToolStarted { id, name },
        AgentEventView::ToolCompleted { id, result, changes, .. } => {
            ServerEventView::ToolCompleted { id, result, changes }
        },
        AgentEventView::ToolFailed { id, error } => ServerEventView::ToolFailed { id, error },
        AgentEventView::PermissionRequest { id, tool_name, args } => {
            ServerEventView::PermissionRequest { id, tool_name, args }
        },
        AgentEventView::SkillsLoaded { names } => ServerEventView::SkillsLoaded { names },
        AgentEventView::SkillSelected { name } => ServerEventView::SkillSelected { name },
        AgentEventView::SubagentStarted { id, name } => {
            ServerEventView::SubagentStarted { id, name }
        },
        AgentEventView::SubagentTextDelta { id, data } => {
            ServerEventView::SubagentTextDelta { id, data }
        },
        AgentEventView::SubagentReasoningDelta { id, data } => {
            ServerEventView::SubagentReasoningDelta { id, data }
        },
        AgentEventView::SubagentToolStarted { id, sub_id, tool_name } => {
            ServerEventView::SubagentToolStarted { id, sub_id, tool_name }
        },
        AgentEventView::SubagentToolCompleted { id, sub_id, result, changes } => {
            ServerEventView::SubagentToolCompleted { id, sub_id, result, changes }
        },
        AgentEventView::SubagentToolFailed { id, sub_id, error } => {
            ServerEventView::SubagentToolFailed { id, sub_id, error }
        },
        AgentEventView::SubagentDone { id, content } => {
            ServerEventView::SubagentDone { id, content }
        },
        AgentEventView::TurnDone { text, tool_calls } => {
            ServerEventView::TurnDone { text, tool_calls }
        },
        AgentEventView::Done { content, tokens_input, tokens_output, .. } => {
            ServerEventView::Done { content, tokens_input, tokens_output }
        },
        AgentEventView::Cancelled { content, tokens_input, tokens_output, .. } => {
            ServerEventView::Cancelled { content, tokens_input, tokens_output }
        },
        AgentEventView::NeedsContinuation { content, tokens_input, tokens_output, .. } => {
            ServerEventView::NeedsContinuation { content, tokens_input, tokens_output }
        },
    }
}

/// What a client is told of something that an agent reports.
pub fn agent_event_to_server_event(event: AgentEvent) -> (e: ServerEvent)
    ensures
        e@ == told(event@),
{
    match event {
        AgentEvent::TextDelta(data) => ServerEvent::TextDelta { data },
        AgentEvent::ReasoningDelta(data) => ServerEvent::ReasoningDelta { data },
        AgentEvent::ToolStarted { id, name } => ServerEvent::ToolStarted { id, name },
        AgentEvent::ToolCompleted { id, name: _, result, changes, rollback_entries: _ } => {
            ServerEvent::ToolCompleted { id, result, changes }
        },
        AgentEvent::ToolFailed { id, error } => ServerEvent::ToolFailed { id, error },
        AgentEvent::PermissionRequest { id, tool_name, args } => {
            ServerEvent::PermissionRequest { id, tool_name, args }
        },
        AgentEvent::SkillsLoaded { names } => ServerEvent::SkillsLoaded { names },
        AgentEvent::SkillSelected { name } => ServerEvent::SkillSelected { name },
        AgentEvent::SubagentStarted { id, name } => ServerEvent::SubagentStarted { id, name },
        AgentEvent::SubagentTextDelta { id, data } => ServerEvent::SubagentTextDelta { id, data },
        AgentEvent::SubagentReasoningDelta { id, data } => {
            ServerEvent::SubagentReasoningDelta { id, data }
        },
        AgentEvent::SubagentToolStarted { id, sub_id, tool_name } => {
            ServerEvent::SubagentToolStarted { id, sub_id, tool_name }
        },
        AgentEvent::SubagentToolCompleted { id, sub_id, result, changes } => {
            ServerEvent::SubagentToolCompleted { id, sub_id, result, changes }
        },
        AgentEvent::SubagentToolFailed { id, sub_id, error } => {
            ServerEvent::SubagentToolFailed { id, sub_id, error }
        },
        AgentEvent::SubagentDone { id, content } => ServerEvent::SubagentDone { id, content },
        AgentEvent::TurnDone { text, tool_calls } => ServerEvent::TurnDone { text, tool_calls },
        AgentEvent::Done { content, tokens_input, tokens_output, history: _ } => {
            ServerEvent::Done { content, tokens_input, tokens_output }
        },
        AgentEvent::Cancelled { content, tokens_input, tokens_output, history: _ } => {
            ServerEvent::Cancelled { content, tokens_input, tokens_output }
        },
        AgentEvent::NeedsContinuation { content, tokens_input, tokens_output, history: _ } => {
            ServerEvent::NeedsContinuation { content, tokens_input, tokens_output }
        },
    }
}

/// What is left to be saved of a run.
#[derive(Debug)]
pub struct FinishedRun {
    pub history: Vec<ChatMessage>,
    pub tokens_input: u64,
    pub tokens_output: u64,
}

/// The model of [`FinishedRun`].
pub struct FinishedRunView {
    pub history: Seq<ChatMessageView>,
    pub tokens_input: u64,
    pub tokens_output: u64,
}

/// What is left to be saved once an agent reports `event`.
pub open spec fn to_save(event: AgentEventView) -> Option<FinishedRunView> {
    match event {
        AgentEventView::Done { tokens_input, tokens_output, history, .. } => Some(
            FinishedRunView { history, tokens_input, tokens_output },
        ),
        AgentEventView::Cancelled { tokens_input, tokens_output, history, .. } => Some(
            FinishedRunView { history, tokens_input, tokens_output },
        ),
        AgentEventView::NeedsContinuation { tokens_input, tokens_output, history, .. } => Some(
            FinishedRunView { history, tokens_input, tokens_output },
        ),
        _ => None,
    }
}

/// What an event of an agent did to files.
pub open spec fn changes_of(event: AgentEventView) -> Option<RollbackChangeSetView> {
    match event {
        AgentEventView::ToolCompleted { id, name, changes, rollback_entries, .. } => {
            if rollback_entries.len() == 0 {
                None
            } else {
                Some(
                    RollbackChangeSetView {
                        id,
                        tool_name: name,
                        entries: rollback_entries,
                        display_changes: changes,
                    },
                )
            }
        },
        _ => None,
    }
}

/// What is kept for a client once the agent of its run reports `event`.
pub open spec fn kept_after(
    session: RuntimeSessionStateView,
    event: Result<AgentEventView, Seq<char>>,
) -> RuntimeSessionStateView {
    match event {
        Ok(v) => match changes_of(v) {
            Some(set) => session.with_changes(set),
            None => session,
        },
        Err(_) => session,
    }
}

/// What becomes of an event of a run.
#[derive(Debug)]
pub struct RunProgress {
    /// What the attached clients are told.
    pub event: ServerEvent,
    /// What is left to be saved.
    pub save: Option<FinishedRun>,
    /// Whether nothing more comes of the run.
    pub finished: bool,
}

impl RunProgress {
    /// The model of what is left to be saved.
    pub open spec fn saved(&self) -> Option<FinishedRunView> {
        match self.save {
            Some(s) => Some(
                FinishedRunView {
                    history: ChatMessage::views(s.history@),
                    tokens_input: s.tokens_input,
                    tokens_output: s.tokens_output,
                },
            ),
            None => None,
        }
    }
}

/// What a client that attaches to a run is sent.
#[derive(Debug)]
pub struct Replay {
    pub events: Vec<ServerEvent>,
    /// Whether the run is over, so that nothing more follows.
    pub ended: bool,
    pub runtime_session_key: String,
}

/// What a message from a client asks for.
#[derive(Debug)]
pub enum ClientAction {
    Nothing,
    AnswerPermission { id: String, allowed: bool },
    CancelRun,
    Rollback { runtime_session_key: String },
    /// Answer that nothing is rolled back.
    Refuse { payload: RollbackResultPayload },
}

/// The model of [`ClientAction`].
pub enum ClientActionView {
    Nothing,
    AnswerPermission { id: Seq<char>, allowed: bool },
    CancelRun,
    Rollback { runtime_session_key: Seq<char> },
    Refuse { payload: RollbackResultPayloadView },
}

impl View for ClientAction {
    type V = ClientActionView;

    open spec fn view(&self) -> ClientActionView {
        match *self {
            ClientAction::Nothing => ClientActionView::Nothing,
            ClientAction::AnswerPermission { id, allowed } => {
                ClientActionView::AnswerPermission { id: id@, allowed }
            },
            ClientAction::CancelRun => ClientActionView::CancelRun,
            ClientAction::Rollback { runtime_session_key } => {
                ClientActionView::Rollback { runtime_session_key: runtime_session_key@ }
            },
            ClientAction::Refuse { payload } => ClientActionView::Refuse { payload: payload@ },
        }
    }
}

/// What a client is answered that wants to undo what another client did.
pub const NOT_YOUR_CHANGES: &'static str =
    "Rollback blocked: a client can only roll back its own changes.";

/// What a message from a client asks for, given the run that it is attached to.
/// A client can only roll back its own changes, those under `key`.
pub open spec fn asked_for(
    run: Option<ActiveRunView>,
    key: Seq<char>,
    event: ClientEventView,
) -> ClientActionView {
    match event {
        ClientEventView::PermissionResponse { id, allowed, .. } => if run is Some {
            ClientActionView::AnswerPermission { id, allowed }
        } else {
            ClientActionView::Nothing
        },
        ClientEventView::Cancel => if run is Some {
            ClientActionView::CancelRun
        } else {
            ClientActionView::Nothing
        },
        ClientEventView::RollbackLast { runtime_session_key } => {
            if runtime_session_key is None || runtime_session_key == Some(key) {
                ClientActionView::Rollback { runtime_session_key: key }
            } else {
                ClientActionView::Refuse { payload: rollback::refused(NOT_YOUR_CHANGES@) }
            }
        },
    }
}

/// Whatever a client asks for, only its own changes are rolled back; a request
/// for those of another client is refused.
pub proof fn law_clients_roll_back_their_own(
    run: Option<ActiveRunView>,
    key: Seq<char>,
    event: ClientEventView,
)
    ensures
        asked_for(run, key, event) matches ClientActionView::Rollback { runtime_session_key }
            ==> runtime_session_key == key,
        event matches ClientEventView::RollbackLast { runtime_session_key: Some(other) } ==> other
            != key ==> asked_for(run, key, event) == (ClientActionView::Refuse {
            payload: rollback::refused(NOT_YOUR_CHANGES@),
        }),
{
}

/// The tool that a message from a client allows for good.
pub open spec fn allowed_for_good(
    run: Option<ActiveRunView>,
    event: ClientEventView,
) -> Option<Seq<char>> {
    match (run, event) {
        (Some(r), ClientEventView::PermissionResponse { id, allowed, remember }) => {
            if remember && allowed && r.pending_permission_tools.contains_key(id) {
                Some(r.pending_permission_tools[id])
            } else {
                None
            }
        },
        _ => None,
    }
}

/// What a client is told of a rollback.
pub fn rollback_event(payload: RollbackResultPayload) -> (e: ServerEvent)
    ensures
        e@ == (ServerEventView::RollbackResult {
            success: payload@.success,
            message: payload@.message,
            changes: payload@.changes,
        }),
{
    ServerEvent::RollbackResult {
        success: payload.success,
        message: payload.message,
        changes: payload.changes,
    }
}

/// What the server keeps while it runs.
#[derive(Debug)]
pub struct ServerState {
    /// What is kept for each client.
    pub sessions: StrMap<RuntimeSessionState>,
    /// The runs by their identifiers.
    pub runs: StrMap<ActiveRun>,
}

impl ServerState {
    /// What is kept for a client.
    pub open spec fn session(&self, key: Seq<char>) -> RuntimeSessionStateView {
        if self.sessions@.contains_key(key) {
            self.sessions@[key]@
        } else {
            RuntimeSessionStateView::nothing()
        }
    }

    /// A run.
    pub open spec fn run(&self, run_id: Seq<char>) -> Option<ActiveRunView> {
        if self.runs@.contains_key(run_id) {
            Some(self.runs@[run_id]@)
        } else {
            None
        }
    }

    /// Nothing is kept for other clients than `key` that was not kept before.
    pub open spec fn same_sessions_but(&self, before: &ServerState, key: Seq<char>) -> bool {
        forall|k: Seq<char>| k != key ==> #[trigger] self.session(k) == before.session(k)
    }

    /// No other run than `run_id` changed.
    pub open spec fn same_runs_but(&self, before: &ServerState, run_id: Seq<char>) -> bool {
        forall|k: Seq<char>| k != run_id ==> #[trigger] self.run(k) == before.run(k)
    }

    /// The server starts.
    pub fn new() -> (s: ServerState)
        ensures
            forall|k: Seq<char>| #[trigger] s.session(k) == RuntimeSessionStateView::nothing(),
            forall|k: Seq<char>| #[trigger] s.run(k) is None,
    {
        ServerState { sessions: StrMap::new(), runs: StrMap::new() }
    }

    /// Takes out what is kept for a client.
    pub(crate) fn take_session(&mut self, key: &str) -> (s: RuntimeSessionState)
        ensures
            s@ == old(self).session(key@),
            final(self).same_sessions_but(old(self), key@),
            final(self).runs == old(self).runs,
    {
        match self.sessions.take(key) {
            Some(s) => s,
            None => RuntimeSessionState::new(),
        }
    }

    /// Keeps something for a client.
    pub(crate) fn put_session(&mut self, key: &str, s: RuntimeSessionState)
        ensures
            final(self).session(key@) == s@,
            final(self).same_sessions_but(old(self), key@),
            final(self).runs == old(self).runs,
    {
        self.sessions.insert(key.to_owned(), s);
    }

    /// The tools that a client's user allowed for good.
    pub fn remembered_tools(&self, key: &str) -> (v: Vec<String>)
        ensures
            text::views(v@) == self.session(key@).remember_allow_tools,
    {
        match self.sessions.get(key) {
            Some(s) => text::clone_strs(&s.remember_allow_tools),
            None => {
                let v: Vec<String> = Vec::new();
                assert(text::views(v@) =~= Seq::empty());
                v
            },
        }
    }

    /// Starts a run.
    pub fn start_run(&mut self, run_id: &str, runtime_session_key: &str)
        ensures
            final(self).sessions == old(self).sessions,
            final(self).same_runs_but(old(self), run_id@),
            final(self).run(run_id@) == Some(
                ActiveRunView::begun(runtime_session_key@).with_event(
                    ServerEventView::RunStarted { run_id: run_id@ },
                ),
            ),
    {
        let mut run = ActiveRun::new(runtime_session_key.to_owned());
        run.add_event(ServerEvent::RunStarted { run_id: run_id.to_owned() });
        self.runs.insert(run_id.to_owned(), run);
    }

    /// Takes note of an event of a run; of an unknown run nothing is noted.
    pub fn record_run_event(&mut self, run_id: &str, event: ServerEvent)
        ensures
            final(self).sessions == old(self).sessions,
            final(self).same_runs_but(old(self), run_id@),
            final(self).run(run_id@) == match old(self).run(run_id@) {
                Some(r) => Some(r.with_event(event@)),
                None => None,
            },
    {
        match self.runs.take(run_id) {
            Some(mut run) => {
                run.add_event(event);
                self.runs.insert(run_id.to_owned(), run);
            },
            None => {},
        }
    }

    /// Takes what the agent of a run reports: the attached clients are told, what
    /// a tool did to files is kept for the client whose run it is, and the
    /// conversation is left to be saved at the end.
    pub fn run_event(
        &mut self,
        run_id: &str,
        runtime_session_key: &str,
        event: Result<AgentEvent, String>,
    ) -> (p: RunProgress)
        ensures
            ({
                let e = subagent::event_view(event);
                let heard = match e {
                    Ok(v) => told(v),
                    Err(message) => ServerEventView::Error { message },
                };
                &&& p.event@ == heard
                &&& p.saved() == match e {
                    Ok(v) => to_save(v),
                    Err(_) => None,
                }
                &&& p.finished == (status_of(heard) is Some)
                &&& final(self).run(run_id@) == match old(self).run(run_id@) {
                    Some(r) => Some(r.with_event(heard)),
                    None => None,
                }
                &&& final(self).same_runs_but(old(self), run_id@)
                &&& final(self).session(runtime_session_key@) == kept_after(
                    old(self).session(runtime_session_key@),
                    e,
                )
                &&& e matches Ok(AgentEventView::ToolCompleted {
                    id,
                    name,
                    changes,
                    rollback_entries,
                    ..
                }) ==> rollback_entries.len() > 0 ==> final(self).session(
                    runtime_session_key@,
                ).rollback_journal.last() == (RollbackChangeSetView {
                    id,
                    tool_name: name,
                    entries: rollback_entries,
                    display_changes: changes,
                })
                &&& final(self).same_sessions_but(old(self), runtime_session_key@)
            }),
    {
        let (heard, save) = match event {
            Ok(AgentEvent::Done { content, tokens_input, tokens_output, history }) => (
                ServerEvent::Done { content, tokens_input, tokens_output },
                Some(FinishedRun { history, tokens_input, tokens_output }),
            ),
            Ok(AgentEvent::Cancelled { content, tokens_input, tokens_output, history }) => (
                ServerEvent::Cancelled { content, tokens_input, tokens_output },
                Some(FinishedRun { history, tokens_input, tokens_output }),
            ),
            Ok(AgentEvent::NeedsContinuation { content, tokens_input, tokens_output, history }) => (
                ServerEvent::NeedsContinuation { content, tokens_input, tokens_output },
                Some(FinishedRun { history, tokens_input, tokens_output }),
            ),
            Ok(AgentEvent::ToolCompleted { id, name, result, changes, rollback_entries }) => {
                if rollback_entries.len() > 0 {
                    let mut session = self.take_session(runtime_session_key);
                    let ghost taken = *self;
                    session.add_changes(
                        RollbackChangeSet {
                            id: id.clone(),
                            tool_name: name,
                            entries: rollback_entries,
                            display_changes: FileChange::clone_all(&changes),
                        },
                    );
                    self.put_session(runtime_session_key, session);
                    assert forall|k: Seq<char>| k != runtime_session_key@ implies #[trigger]
                    self.session(k) == old(self).session(k) by {
                        assert(self.session(k) == taken.session(k));
                    }
                }
                (ServerEvent::ToolCompleted { id, result, changes }, None)
            },
            Ok(other) => (agent_event_to_server_event(other), None),
            Err(message) => (ServerEvent::Error { message }, None),
        };
        let finished = is_terminal_event(&heard);
        let ghost mid = *self;
        assert forall|k: Seq<char>| #[trigger] mid.run(k) == old(self).run(k) by {}
        self.record_run_event(run_id, heard.clone());
        assert forall|k: Seq<char>| #[trigger] self.session(k) == mid.session(k) by {}
        assert forall|k: Seq<char>| k != run_id@ implies #[trigger] self.run(k) == old(self).run(
            k,
        ) by {
            assert(self.run(k) == mid.run(k));
        }
        RunProgress { event: heard, save, finished }
    }

    /// What a client that attaches to a run is sent; `None` where there is no
    /// such run.
    pub fn attach(&self, run_id: &str) -> (r: Option<Replay>)
        ensures
            match r {
                Some(replay) => {
                    &&& self.run(run_id@) is Some
                    &&& ServerEvent::views(replay.events@) == replayed(
                        run_id@,
                        self.run(run_id@)->0.events,
                    )
                    &&& replay.ended == is_over(self.run(run_id@)->0.events)
                    &&& replay.runtime_session_key@ == self.run(run_id@)->0.runtime_session_key
                },
                None => self.run(run_id@) is None,
            },
    {
        let run = match self.runs.get(run_id) {
            Some(run) => run,
            None => {
                return None;
            },
        };
        let ghost all = ServerEvent::views(run.events@);
        let mut events: Vec<ServerEvent> = Vec::new();
        let mut i: usize = 0;
        assert(ServerEvent::views(events@) =~= Seq::empty());
        assert(all.skip(0) =~= all);
        assert(Seq::<ServerEventView>::empty() + until_end(all) =~= until_end(all));
        while i < run.events.len()
            invariant
                i <= run.events.len(),
                all == ServerEvent::views(run.events@),
                self.run(run_id@) == Some(run@),
                ServerEvent::views(events@) + until_end(all.skip(i as int)) == until_end(all),
                forall|k: int| 0 <= k < i ==> status_of(#[trigger] all[k]) is None,
            decreases run.events.len() - i,
        {
            let event = &run.events[i];
            let ghost before = events@;
            let ghost rest = all.skip(i as int);
            assert(rest[0] == event@ && all[i as int] == event@);
            assert(rest.skip(1) =~= all.skip(i + 1));
            events.push(event.clone());
            assert(ServerEvent::views(events@) =~= ServerEvent::views(before).push(event@));
            if is_terminal_event(event) {
                assert(ServerEvent::views(before) + seq![event@] =~= ServerEvent::views(before).push(
                    event@,
                ));
                return Some(
                    Replay {
                        events,
                        ended: true,
                        runtime_session_key: run.runtime_session_key.clone(),
                    },
                );
            }
            assert(ServerEvent::views(before) + (seq![event@] + until_end(all.skip(i + 1)))
                =~= ServerEvent::views(events@) + until_end(all.skip(i + 1)));
            i += 1;
        }
        assert(ServerEvent::views(events@) + Seq::<ServerEventView>::empty()
            =~= ServerEvent::views(events@));
        let ghost before = events@;
        events.push(ServerEvent::RunAttached { run_id: run_id.to_owned() });
        assert(ServerEvent::views(events@) =~= ServerEvent::views(before).push(
            ServerEventView::RunAttached { run_id: run_id@ },
        ));
        Some(
            Replay {
                events,
                ended: false,
                runtime_session_key: run.runtime_session_key.clone(),
            },
        )
    }

    /// Takes a message from a client that is attached to a run.
    pub fn client_event(
        &mut self,
        run_id: &str,
        runtime_session_key: &str,
        event: ClientEvent,
    ) -> (a: ClientAction)
        ensures
            a@ == asked_for(old(self).run(run_id@), runtime_session_key@, event@),
            final(self).session(runtime_session_key@) == match allowed_for_good(
                old(self).run(run_id@),
                event@,
            ) {
                Some(tool) => old(self).session(runtime_session_key@).with_allowed(tool),
                None => old(self).session(runtime_session_key@),
            },
            final(self).same_sessions_but(old(self), runtime_session_key@),
            final(self).runs == old(self).runs,
    {
        match event {
            ClientEvent::PermissionResponse { id, allowed, remember } => {
                let tool = match self.runs.get(run_id) {
                    Some(run) => match run.pending_permission_tools.get(id.as_str()) {
                        Some(tool) => Some(tool.clone()),
                        None => None,
                    },
                    None => {
                        return ClientAction::Nothing;
                    },
                };
                if remember && allowed {
                    match tool {
                        Some(tool) => {
                            let mut session = self.take_session(runtime_session_key);
                            session.allow(tool);
                            self.put_session(runtime_session_key, session);
                        },
                        None => {},
                    }
                }
                ClientAction::AnswerPermission { id, allowed }
            },
            ClientEvent::Cancel => if self.runs.contains_key(run_id) {
                ClientAction::CancelRun
            } else {
                ClientAction::Nothing
            },
            ClientEvent::RollbackLast { runtime_session_key: requested } => {
                match requested {
                    Some(k) => if !text::same(k.as_str(), runtime_session_key) {
                        return ClientAction::Refuse {
                            payload: rollback::refusal(NOT_YOUR_CHANGES.to_owned()),
                        };
                    },
                    None => {},
                }
                ClientAction::Rollback { runtime_session_key: runtime_session_key.to_owned() }
            },
        }
    }
}

} // verus!
