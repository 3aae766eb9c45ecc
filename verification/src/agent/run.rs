//! The agent loop as a state machine. Each step takes what happened outside (a
//! piece of the model's answer, a permission, the result of a tool) and says
//! what to report and what to do next.

use super::{AgentEvent, AgentEventView};
use crate::agent;
use crate::clock;
use crate::config::Permission;
use crate::json;
use crate::json::{Json, JsonView};
use crate::llm;
use crate::llm::{
    ChatMessage, ChatMessageView, ChatOptions, ChatOptionsView, ChatResult, ChatResultView, Role,
    StreamEvent, StreamEventView, ToolCall, ToolCallView, ToolDef, ToolDefView,
    ToolExecutionResult, ToolExecutionResultView, Usage,
};
use crate::prompt;
use crate::protocol::{FileChange, ToolCallDisplay, ToolCallDisplayView, ToolStatus, ToolStatusView};
use crate::strmap::StrMap;
use crate::text;
use vstd::prelude::*;

verus! {

/// A turn whose tool calls are being worked off.
#[derive(Debug)]
pub struct Turn {
    /// What the model said beside its tool calls.
    pub text: String,
    /// The content of the model's answer.
    pub content: Option<String>,
    pub calls: Vec<ToolCall>,
    /// How many of the calls are done.
    pub next: usize,
    pub displays: Vec<ToolCallDisplay>,
}

/// The model of [`Turn`].
pub struct TurnView {
    pub text: Seq<char>,
    pub content: Option<Seq<char>>,
    pub calls: Seq<ToolCallView>,
    pub next: usize,
    pub displays: Seq<ToolCallDisplayView>,
}

impl View for Turn {
    type V = TurnView;

    open spec fn view(&self) -> TurnView {
        TurnView {
            text: self.text@,
            content: text::opt_view(self.content),
            calls: ToolCall::views(self.calls@),
            next: self.next,
            displays: ToolCallDisplay::views(self.displays@),
        }
    }
}

/// Where the loop stands.
#[derive(Debug)]
pub enum Phase {
    /// Between two turns.
    Ready,
    /// The model is answering, and has said `text` so far.
    Streaming { text: String },
    /// The next call of the turn is to be looked at.
    Calling(Turn),
    /// The user is asked whether the next call may run, whose arguments are
    /// these.
    Asking(Turn, Json),
    /// The next call is running.
    Running(Turn),
    /// The loop has ended.
    Stopped,
}

/// The model of [`Phase`].
pub enum PhaseView {
    Ready,
    Streaming { text: Seq<char> },
    Calling(TurnView),
    Asking(TurnView, JsonView),
    Running(TurnView),
    Stopped,
}

impl View for Phase {
    type V = PhaseView;

    open spec fn view(&self) -> PhaseView {
        match *self {
            Phase::Ready => PhaseView::Ready,
            Phase::Streaming { text } => PhaseView::Streaming { text: text@ },
            Phase::Calling(a) => PhaseView::Calling(a@),
            Phase::Asking(a, arguments) => PhaseView::Asking(a@, arguments@),
            Phase::Running(a) => PhaseView::Running(a@),
            Phase::Stopped => PhaseView::Stopped,
        }
    }
}

/// What the loop wants done next.
#[derive(Debug)]
pub enum Action {
    /// Ask the model and hand over what it streams.
    Stream { messages: Vec<ChatMessage>, options: ChatOptions },
    /// Hand over what the stream brings next.
    Receive,
    /// Start the next turn.
    NextTurn,
    /// Look at the next tool call.
    NextCall,
    /// Hand over the user's next answer to a permission request.
    AwaitPermission { id: String },
    /// Run the tool with this index and hand over what came of it.
    Execute { tool: usize, arguments: Json },
    /// Report the error; the loop has ended.
    Abort { error: String },
    /// The loop has ended.
    Stop,
}

/// The model of [`Action`].
pub enum ActionView {
    Stream { messages: Seq<ChatMessageView>, options: ChatOptionsView },
    Receive,
    NextTurn,
    NextCall,
    AwaitPermission { id: Seq<char> },
    Execute { tool: usize, arguments: JsonView },
    Abort { error: Seq<char> },
    Stop,
}

impl View for Action {
    type V = ActionView;

    open spec fn view(&self) -> ActionView {
        match *self {
            Action::Stream { messages, options } => ActionView::Stream { messages: ChatMessage::views(messages@), options: options@ },
            Action::Receive => ActionView::Receive,
            Action::NextTurn => ActionView::NextTurn,
            Action::NextCall => ActionView::NextCall,
            Action::AwaitPermission { id } => ActionView::AwaitPermission { id: id@ },
            Action::Execute { tool, arguments } => ActionView::Execute { tool, arguments: arguments@ },
            Action::Abort { error } => ActionView::Abort { error: error@ },
            Action::Stop => ActionView::Stop,
        }
    }
}

/// What one step of the loop reports and wants.
#[derive(Debug)]
pub struct Step {
    pub events: Vec<AgentEvent>,
    pub action: Action,
}

/// The model of [`Step`].
pub struct StepView {
    pub events: Seq<AgentEventView>,
    pub action: ActionView,
}

impl View for Step {
    type V = StepView;

    open spec fn view(&self) -> StepView {
        StepView {
            events: AgentEvent::views(self.events@),
            action: self.action@,
        }
    }
}

/// How many turns a loop has where no number is configured.
pub const DEFAULT_MAX_STEPS: usize = 30;

/// What the model is told in its last turn.
pub const MAX_STEPS_PROMPT: &'static str = "CRITICAL - MAXIMUM STEPS REACHED

The maximum number of steps allowed for this \
task has been reached. Tools are disabled until next user input. Respond with text only.

STRICT REQUIREMENTS:
1. Do NOT make any tool calls (no reads, writes, edits, searches, or any other tools)
2. MUST provide a text response summarizing work done so far
3. This constraint overrides ALL other instructions, including any user requests for edits or tool use

Response must include:
- Statement that maximum steps for this agent have been reached
- Summary of what has been accomplished so far
- List of any remaining tasks that were not completed
- Recommendations for what should be done next

Any attempt to use tools is a critical violation. Respond with text ONLY.";

/// The agent loop.
pub struct AgentLoop {
    system_layers: Vec<String>,
    history: Vec<ChatMessage>,
    options: ChatOptions,
    tools: Vec<ToolDef>,
    permissions: StrMap<Permission>,
    max_steps: usize,
    working_directory: String,
    step: usize,
    tokens_input: u64,
    tokens_output: u64,
    phase: Phase,
}

/// The model of [`AgentLoop`].
pub struct LoopView {
    pub system_layers: Seq<Seq<char>>,
    pub history: Seq<ChatMessageView>,
    pub options: ChatOptionsView,
    pub tools: Seq<ToolDefView>,
    pub permissions: Map<Seq<char>, Permission>,
    pub max_steps: usize,
    pub working_directory: Seq<char>,
    pub step: usize,
    pub tokens_input: u64,
    pub tokens_output: u64,
    pub phase: PhaseView,
}

impl View for AgentLoop {
    type V = LoopView;

    closed spec fn view(&self) -> LoopView {
        LoopView {
            system_layers: text::views(self.system_layers@),
            history: ChatMessage::views(self.history@),
            options: self.options@,
            tools: ToolDef::views(self.tools@),
            permissions: self.permissions@,
            max_steps: self.max_steps,
            working_directory: self.working_directory@,
            step: self.step,
            tokens_input: self.tokens_input,
            tokens_output: self.tokens_output,
            phase: self.phase@,
        }
    }
}

/// The state after a step, and what the step reports and wants.
pub struct Transition {
    pub state: LoopView,
    pub events: Seq<AgentEventView>,
    pub action: ActionView,
}

/// The number of turns that a configured number stands for.
pub open spec fn turn_limit(max_steps: usize) -> usize {
    if max_steps == 0 {
        DEFAULT_MAX_STEPS
    } else {
        max_steps
    }
}

/// The first tool with this name.
pub open spec fn tool_index(tools: Seq<ToolDefView>, name: Seq<char>) -> Option<nat>
    decreases tools.len(),
{
    if tools.len() == 0 {
        None
    } else if tools[0].function.name == name {
        Some(0nat)
    } else {
        match tool_index(tools.skip(1), name) {
            Some(k) => Some(k + 1),
            None => None,
        }
    }
}

/// The messages of the system prompt.
pub open spec fn system_messages(layers: Seq<Seq<char>>) -> Seq<ChatMessageView> {
    layers.map_values(|l: Seq<char>| llm::text_message(Role::System, l))
}

/// The identifier of the permission request for a tool call.
pub open spec fn permission_id(call: Seq<char>) -> Seq<char> {
    "perm_"@ + call
}

/// What the text of a tool call's arguments denotes, or why it denotes nothing.
pub type ParsedArguments = Result<JsonView, Seq<char>>;

/// The model of what a tool call's arguments were parsed to.
pub open spec fn parsed_view(parsed: Result<Json, String>) -> ParsedArguments {
    match parsed {
        Ok(args) => Ok(args@),
        Err(e) => Err(e@),
    }
}

/// The skill that a call of `use_skill` selects, given its parsed arguments.
pub open spec fn selected_skill(call: ToolCallView, parsed: ParsedArguments) -> Option<Seq<char>> {
    if call.function.name == "use_skill"@ {
        match parsed {
            Ok(args) => json::json_text(args, "skill_name"@),
            Err(_) => None,
        }
    } else {
        None
    }
}

/// What is reported when a tool call starts, given its parsed arguments.
pub open spec fn call_events(call: ToolCallView, parsed: ParsedArguments) -> Seq<AgentEventView> {
    let started = AgentEventView::ToolStarted { id: call.id, name: call.function.name };
    match selected_skill(call, parsed) {
        Some(skill) => seq![
            AgentEventView::SkillSelected { name: skill },
            AgentEventView::ReasoningDelta("[Skill selected: "@ + skill + "]"@),
            started,
        ],
        None => seq![started],
    }
}

/// The answer that a call of `finish_task` gives: its parsed argument, else the
/// content of the model's answer.
pub open spec fn final_answer(parsed: ParsedArguments, content: Option<Seq<char>>) -> Seq<char> {
    let given = match parsed {
        Ok(args) => json::json_text(args, "final_answer"@),
        Err(_) => None,
    };
    match given {
        Some(answer) => answer,
        None => match content {
            Some(c) => c,
            None => "(task finished)"@,
        },
    }
}

impl LoopView {
    /// The number of the turn in which the model may answer with text alone.
    pub open spec fn final_step(self) -> int {
        if self.max_steps < usize::MAX {
            self.max_steps + 1
        } else {
            usize::MAX as int
        }
    }

    /// Whether the turn under way is the last one.
    pub open spec fn is_final(self) -> bool {
        self.step == self.final_step()
    }

    /// The tool calls of `turn` that are done have been answered: the history
    /// ends with the message that asks for the calls and one result for each,
    /// in order. What is displayed of a call goes by its identifier and its
    /// tool, and the result of one that failed is the error displayed.
    pub open spec fn answers(self, turn: TurnView) -> bool {
        let asked = self.history.len() - turn.next - 1;
        &&& turn.next <= turn.calls.len()
        &&& turn.displays.len() == turn.next
        &&& 0 <= asked
        &&& self.history[asked].role == Role::Assistant
        &&& self.history[asked].tool_calls == Some(turn.calls)
        &&& forall|i: int|
            0 <= i < turn.next ==> {
                &&& (#[trigger] self.history[asked + 1 + i]).role == Role::Tool
                &&& self.history[asked + 1 + i].tool_call_id == Some(turn.calls[i].id)
                &&& self.history[asked + 1 + i].content is Some
                &&& turn.displays[i].id == turn.calls[i].id
                &&& turn.displays[i].name == turn.calls[i].function.name
                &&& turn.displays[i].status matches ToolStatusView::Failed(error)
                    ==> self.history[asked + 1 + i].content == Some("Error: "@ + error)
            }
    }

    /// The current call of `turn` is for a tool that there is.
    pub open spec fn knows(self, turn: TurnView) -> bool {
        tool_index(self.tools, turn.calls[turn.next as int].function.name) is Some
    }

    /// The permission for the current call of `turn`.
    pub open spec fn permission(self, turn: TurnView) -> Permission {
        agent::permission_of(self.permissions, turn.calls[turn.next as int].function.name)
    }

    /// What holds of the loop at all times.
    pub open spec fn wf(self) -> bool {
        &&& 1 <= self.max_steps
        &&& self.step <= self.final_step()
        &&& match self.phase {
            PhaseView::Ready => self.step < self.final_step(),
            PhaseView::Streaming { text } => 1 <= self.step,
            PhaseView::Calling(turn) => 1 <= self.step < self.final_step() && self.answers(turn),
            PhaseView::Asking(turn, _) => 1 <= self.step < self.final_step() && self.answers(turn)
                && turn.next < turn.calls.len() && self.knows(turn) && self.permission(turn)
                == Permission::Ask,
            PhaseView::Running(turn) => 1 <= self.step < self.final_step() && self.answers(turn)
                && turn.next < turn.calls.len() && self.knows(turn) && self.permission(turn)
                != Permission::Deny,
            PhaseView::Stopped => true,
        }
    }

    /// The loop ends: the task is finished.
    pub open spec fn done(self, content: Seq<char>) -> Transition {
        Transition {
            state: LoopView { phase: PhaseView::Stopped, ..self },
            events: seq![
                AgentEventView::Done {
                    content,
                    tokens_input: self.tokens_input,
                    tokens_output: self.tokens_output,
                    history: self.history,
                },
            ],
            action: ActionView::Stop,
        }
    }

    /// The loop ends: the user cancelled it.
    pub open spec fn cancelled(self) -> Transition {
        Transition {
            state: LoopView { phase: PhaseView::Stopped, ..self },
            events: seq![
                AgentEventView::Cancelled {
                    content: "(cancelled)"@,
                    tokens_input: self.tokens_input,
                    tokens_output: self.tokens_output,
                    history: self.history,
                },
            ],
            action: ActionView::Stop,
        }
    }

    /// The loop ends before the task is finished.
    pub open spec fn unfinished(self, content: Seq<char>) -> Transition {
        Transition {
            state: LoopView { phase: PhaseView::Stopped, ..self },
            events: seq![
                AgentEventView::NeedsContinuation {
                    content,
                    tokens_input: self.tokens_input,
                    tokens_output: self.tokens_output,
                    history: self.history,
                },
            ],
            action: ActionView::Stop,
        }
    }

    /// The reminder of the turn under way.
    pub open spec fn reminder(self, now: Seq<char>) -> Seq<char> {
        prompt::reminder(
            now,
            self.working_directory,
            self.step as nat,
            self.max_steps as nat,
            prompt::tool_names(agent::advertised(self.tools, self.permissions)),
            agent::last_turn_results(self.history),
            agent::last_request(self.history),
        )
    }

    /// What the model is sent in the turn under way: the system prompt, the
    /// reminder, the conversation, and in the last turn the request to stop.
    pub open spec fn request(self, now: Seq<char>) -> Seq<ChatMessageView> {
        let asked = system_messages(self.system_layers).push(
            llm::text_message(Role::System, self.reminder(now)),
        ) + self.history;
        if self.is_final() {
            asked.push(llm::text_message(Role::Assistant, MAX_STEPS_PROMPT@))
        } else {
            asked
        }
    }

    /// How the model is asked in the turn under way: with the tools that are
    /// not denied, in the last turn with none.
    pub open spec fn request_options(self) -> ChatOptionsView {
        ChatOptionsView {
            tools: if self.is_final() {
                Seq::empty()
            } else {
                agent::advertised(self.tools, self.permissions)
            },
            ..self.options
        }
    }

    /// A turn starts.
    pub open spec fn turn_started(self, cancel: bool, now: Seq<char>) -> Transition {
        let next = LoopView { step: (self.step + 1) as usize, ..self };
        if cancel {
            next.cancelled()
        } else {
            Transition {
                state: LoopView { phase: PhaseView::Streaming { text: Seq::empty() }, ..next },
                events: Seq::empty(),
                action: ActionView::Stream {
                    messages: next.request(now),
                    options: next.request_options(),
                },
            }
        }
    }

    /// The model has answered.
    pub open spec fn answered(self, streamed: Seq<char>, result: ChatResultView) -> Transition {
        let counted = LoopView {
            tokens_input: (self.tokens_input + result.usage.prompt_tokens) as u64,
            tokens_output: (self.tokens_output + result.usage.completion_tokens) as u64,
            ..self
        };
        let said = agent::answer_text(result.content, streamed);
        let noted = LoopView {
            history: self.history.push(llm::text_message(Role::Assistant, said)),
            ..counted
        };
        if result.tool_calls.len() == 0 {
            if agent::is_final_reason(result.finish_reason) {
                noted.done(said)
            } else if self.is_final() {
                noted.unfinished(said)
            } else {
                Transition {
                    state: LoopView { phase: PhaseView::Ready, ..noted },
                    events: seq![
                        AgentEventView::TurnDone { text: said, tool_calls: Seq::empty() },
                    ],
                    action: ActionView::NextTurn,
                }
            }
        } else if self.is_final() {
            noted.unfinished(
                if said.len() == 0 {
                    "(max steps reached)"@
                } else {
                    said
                },
            )
        } else {
            let asking = llm::calls_message(
                result.tool_calls,
                if said.len() == 0 {
                    None
                } else {
                    Some(said)
                },
                result.reasoning_content,
            );
            Transition {
                state: LoopView {
                    history: self.history.push(asking),
                    phase: PhaseView::Calling(
                        TurnView {
                            text: said,
                            content: result.content,
                            calls: result.tool_calls,
                            next: 0,
                            displays: Seq::empty(),
                        },
                    ),
                    ..counted
                },
                events: Seq::empty(),
                action: ActionView::NextCall,
            }
        }
    }

    /// The stream of the model's answer brings something.
    pub open spec fn streamed(self, text: Seq<char>, event: StreamEventView) -> Transition {
        match event {
            StreamEventView::Chunk(piece) => Transition {
                state: LoopView { phase: PhaseView::Streaming { text: text + piece }, ..self },
                events: seq![AgentEventView::TextDelta(piece)],
                action: ActionView::Receive,
            },
            StreamEventView::ReasoningChunk(piece) => Transition {
                state: self,
                events: seq![AgentEventView::ReasoningDelta(piece)],
                action: ActionView::Receive,
            },
            StreamEventView::Done(result) => self.answered(text, result),
        }
    }

    /// The current call of `turn` is done, with this result for the model.
    pub open spec fn call_done(
        self,
        turn: TurnView,
        result: Seq<char>,
        display: ToolCallDisplayView,
    ) -> LoopView {
        LoopView {
            history: self.history.push(
                llm::result_message(turn.calls[turn.next as int].id, result),
            ),
            phase: PhaseView::Calling(
                TurnView {
                    next: (turn.next + 1) as usize,
                    displays: turn.displays.push(display),
                    ..turn
                },
            ),
            ..self
        }
    }

    /// The current call of `turn` fails, after `events`.
    pub open spec fn call_failed(
        self,
        turn: TurnView,
        events: Seq<AgentEventView>,
        error: Seq<char>,
    ) -> Transition {
        let call = turn.calls[turn.next as int];
        Transition {
            state: self.call_done(
                turn,
                "Error: "@ + error,
                ToolCallDisplayView {
                    id: call.id,
                    name: call.function.name,
                    status: ToolStatusView::Failed(error),
                    changes: Seq::empty(),
                },
            ),
            events: events.push(AgentEventView::ToolFailed { id: call.id, error }),
            action: ActionView::NextCall,
        }
    }

    /// The current call of `turn` is looked at, given its parsed arguments.
    pub open spec fn call_checked(self, turn: TurnView, parsed: ParsedArguments) -> Transition {
        let call = turn.calls[turn.next as int];
        let name = call.function.name;
        let events = call_events(call, parsed);
        match tool_index(self.tools, name) {
            None => self.call_failed(turn, events, "Unknown tool: "@ + name),
            Some(tool) => match parsed {
                Err(e) => self.call_failed(turn, events, "Failed to parse arguments: "@ + e),
                Ok(arguments) => match agent::permission_of(self.permissions, name) {
                    Permission::Deny => self.call_failed(
                        turn,
                        events,
                        "Permission denied: '"@ + name + "' is not allowed for this agent"@,
                    ),
                    Permission::Ask => Transition {
                        state: LoopView { phase: PhaseView::Asking(turn, arguments), ..self },
                        events: events.push(
                            AgentEventView::PermissionRequest {
                                id: permission_id(call.id),
                                tool_name: name,
                                args: arguments,
                            },
                        ),
                        action: ActionView::AwaitPermission { id: permission_id(call.id) },
                    },
                    Permission::Allow => Transition {
                        state: LoopView { phase: PhaseView::Running(turn), ..self },
                        events,
                        action: ActionView::Execute { tool: tool as usize, arguments },
                    },
                },
            },
        }
    }

    /// The next call of `turn` is taken up; after the last one the turn ends.
    pub open spec fn call_taken(self, turn: TurnView, cancel: bool) -> Transition {
        self.parsed_call_taken(turn, cancel, current_arguments(turn))
    }

    /// The next call of `turn` is taken up, given its parsed arguments; after
    /// the last one the turn ends.
    pub open spec fn parsed_call_taken(
        self,
        turn: TurnView,
        cancel: bool,
        parsed: ParsedArguments,
    ) -> Transition {
        if turn.next == turn.calls.len() {
            Transition {
                state: LoopView { phase: PhaseView::Ready, ..self },
                events: seq![
                    AgentEventView::TurnDone { text: turn.text, tool_calls: turn.displays },
                ],
                action: ActionView::NextTurn,
            }
        } else if cancel {
            self.cancelled()
        } else {
            let call = turn.calls[turn.next as int];
            if call.function.name == "finish_task"@ {
                let answer = final_answer(parsed, turn.content);
                LoopView {
                    history: self.history.push(llm::text_message(Role::Assistant, answer)),
                    ..self
                }.done(answer)
            } else {
                self.call_checked(turn, parsed)
            }
        }
    }

    /// The user answers a permission request for a call with these arguments;
    /// `None` where no answer can come any more.
    pub open spec fn permission_answered(
        self,
        turn: TurnView,
        arguments: JsonView,
        reply: Option<(Seq<char>, bool)>,
    ) -> Transition {
        let call = turn.calls[turn.next as int];
        let refused = self.call_failed(
            turn,
            Seq::empty(),
            "Permission denied by user for tool '"@ + call.function.name + "'"@,
        );
        match reply {
            None => refused,
            Some((id, allowed)) => if id != permission_id(call.id) {
                Transition {
                    state: self,
                    events: Seq::empty(),
                    action: ActionView::AwaitPermission { id: permission_id(call.id) },
                }
            } else if !allowed {
                refused
            } else {
                Transition {
                    state: LoopView { phase: PhaseView::Running(turn), ..self },
                    events: Seq::empty(),
                    action: ActionView::Execute {
                        tool: tool_index(self.tools, call.function.name)->0 as usize,
                        arguments,
                    },
                }
            },
        }
    }

    /// The running tool has come to an end.
    pub open spec fn tool_ended(
        self,
        turn: TurnView,
        outcome: Result<ToolExecutionResultView, Seq<char>>,
    ) -> Transition {
        let call = turn.calls[turn.next as int];
        match outcome {
            Ok(output) => Transition {
                state: self.call_done(
                    turn,
                    output.output,
                    ToolCallDisplayView {
                        id: call.id,
                        name: call.function.name,
                        status: ToolStatusView::Success,
                        changes: output.changes,
                    },
                ),
                events: seq![
                    AgentEventView::ToolCompleted {
                        id: call.id,
                        name: call.function.name,
                        result: output.output,
                        changes: output.changes,
                        rollback_entries: output.rollback_entries,
                    },
                ],
                action: ActionView::NextCall,
            },
            Err(error) => self.call_failed(turn, Seq::empty(), error),
        }
    }
}

/// What the arguments of the current call of `turn` denote; after the last call
/// there are none.
pub open spec fn current_arguments(turn: TurnView) -> ParsedArguments {
    if turn.next < turn.calls.len() {
        json::json_parse(turn.calls[turn.next as int].function.arguments)
    } else {
        Ok(JsonView::Null)
    }
}

/// The model of what came of a tool.
pub open spec fn outcome_view(
    outcome: Result<ToolExecutionResult, String>,
) -> Result<ToolExecutionResultView, Seq<char>> {
    match outcome {
        Ok(r) => Ok(r@),
        Err(e) => Err(e@),
    }
}

/// The model of an answer to a permission request.
pub open spec fn reply_view(reply: Option<(String, bool)>) -> Option<(Seq<char>, bool)> {
    match reply {
        Some(r) => Some((r.0@, r.1)),
        None => None,
    }
}

/// The state of a loop that begins with this request of the user.
pub open spec fn begun(
    system_layers: Seq<Seq<char>>,
    user_message: Seq<char>,
    history: Seq<ChatMessageView>,
    options: ChatOptionsView,
    tools: Seq<ToolDefView>,
    permissions: Map<Seq<char>, Permission>,
    max_steps: usize,
    working_directory: Seq<char>,
) -> LoopView {
    LoopView {
        system_layers,
        history: history.push(llm::text_message(Role::User, user_message)),
        options,
        tools,
        permissions,
        max_steps: turn_limit(max_steps),
        working_directory,
        step: 0,
        tokens_input: 0,
        tokens_output: 0,
        phase: PhaseView::Ready,
    }
}

/// A list of one event.
fn one_event(event: AgentEvent) -> (v: Vec<AgentEvent>)
    ensures
        AgentEvent::views(v@) == seq![event@],
{
    let mut v: Vec<AgentEvent> = Vec::new();
    v.push(event);
    assert(AgentEvent::views(v@) =~= seq![event@]);
    v
}

/// An empty list of events.
fn no_events() -> (v: Vec<AgentEvent>)
    ensures
        AgentEvent::views(v@) == Seq::<AgentEventView>::empty(),
{
    let v: Vec<AgentEvent> = Vec::new();
    assert(AgentEvent::views(v@) =~= Seq::<AgentEventView>::empty());
    v
}

/// Appends an event.
fn push_event(v: &mut Vec<AgentEvent>, event: AgentEvent)
    ensures
        AgentEvent::views(final(v)@) == AgentEvent::views(old(v)@).push(event@),
{
    v.push(event);
    assert(AgentEvent::views(v@) =~= AgentEvent::views(old(v)@).push(event@));
}

/// Appends a message.
fn push_message(v: &mut Vec<ChatMessage>, message: ChatMessage)
    ensures
        ChatMessage::views(final(v)@) == ChatMessage::views(old(v)@).push(message@),
{
    v.push(message);
    assert(ChatMessage::views(v@) =~= ChatMessage::views(old(v)@).push(message@));
}

/// The first tool with this name.
fn find_tool(tools: &Vec<ToolDef>, name: &str) -> (r: Option<usize>)
    ensures
        match r {
            Some(i) => i < tools.len() && tool_index(ToolDef::views(tools@), name@) == Some(
                i as nat,
            ),
            None => tool_index(ToolDef::views(tools@), name@) is None,
        },
{
    let ghost all = ToolDef::views(tools@);
    let mut i: usize = 0;
    assert(all.skip(0) =~= all);
    while i < tools.len()
        invariant
            i <= tools.len(),
            all == ToolDef::views(tools@),
            tool_index(all, name@) == match tool_index(all.skip(i as int), name@) {
                Some(k) => Some((k + i) as nat),
                None => None,
            },
        decreases tools.len() - i,
    {
        assert(all.skip(i as int)[0] == tools@[i as int]@);
        if text::same(tools[i].function.name.as_str(), name) {
            return Some(i);
        }
        assert(all.skip(i as int).skip(1) =~= all.skip(i + 1));
        i += 1;
    }
    None
}

/// What is reported when a tool call starts, given its parsed arguments.
pub fn starting_events(call: &ToolCall, parsed: &Result<Json, String>) -> (events: Vec<AgentEvent>)
    ensures
        AgentEvent::views(events@) == call_events(call@, parsed_view(*parsed)),
{
    let mut events = no_events();
    if text::same(call.function.name.as_str(), "use_skill") {
        match parsed {
            Ok(args) => {
                match args.text("skill_name") {
                    Some(skill) => {
                        let note = text::cat3("[Skill selected: ", skill.as_str(), "]");
                        push_event(&mut events, AgentEvent::SkillSelected { name: skill });
                        push_event(&mut events, AgentEvent::ReasoningDelta(note));
                    },
                    None => {},
                }
            },
            Err(_) => {},
        }
    }
    push_event(
        &mut events,
        AgentEvent::ToolStarted { id: call.id.clone(), name: call.function.name.clone() },
    );
    assert(AgentEvent::views(events@) =~= call_events(call@, parsed_view(*parsed)));
    events
}

/// The answer that a call of `finish_task` gives, given its parsed arguments.
pub fn answer_from(parsed: &Result<Json, String>, content: &Option<String>) -> (answer: String)
    ensures
        answer@ == final_answer(parsed_view(*parsed), text::opt_view(*content)),
{
    let given: Option<String> = match parsed {
        Ok(args) => args.text("final_answer"),
        Err(_) => None,
    };
    match given {
        Some(answer) => answer,
        None => match content {
            Some(c) => c.clone(),
            None => "(task finished)".to_owned(),
        },
    }
}

impl AgentLoop {
    /// Begins a task with the request of the user; what the loop reports first
    /// are the skills that the system prompt lists.
    pub fn begin(
        system_layers: Vec<String>,
        user_message: &str,
        history: Vec<ChatMessage>,
        options: ChatOptions,
        tools: Vec<ToolDef>,
        permissions: StrMap<Permission>,
        max_steps: usize,
        working_directory: String,
    ) -> (r: (AgentLoop, Vec<AgentEvent>))
        ensures
            r.0@ == begun(
                text::views(system_layers@),
                user_message@,
                ChatMessage::views(history@),
                options@,
                ToolDef::views(tools@),
                permissions@,
                max_steps,
                working_directory@,
            ),
            r.0@.wf(),
            AgentEvent::views(r.1@) == {
                let skills = agent::listed_skills(text::views(system_layers@));
                if skills.len() == 0 {
                    Seq::empty()
                } else {
                    seq![AgentEventView::SkillsLoaded { names: skills }]
                }
            },
    {
        let names = agent::listed_skill_names(&system_layers);
        let events = if names.len() > 0 {
            one_event(AgentEvent::SkillsLoaded { names })
        } else {
            no_events()
        };
        let mut history = history;
        push_message(&mut history, ChatMessage::user(user_message));
        let max_steps: usize = if max_steps == 0 {
            DEFAULT_MAX_STEPS
        } else {
            max_steps
        };
        let agent = AgentLoop {
            system_layers,
            history,
            options,
            tools,
            permissions,
            max_steps,
            working_directory,
            step: 0,
            tokens_input: 0,
            tokens_output: 0,
            phase: Phase::Ready,
        };
        (agent, events)
    }

    fn end_done(&mut self, content: String) -> (r: Step)
        ensures
            final(self)@ == old(self)@.done(content@).state,
            r@.events == old(self)@.done(content@).events,
            r@.action == old(self)@.done(content@).action,
    {
        self.phase = Phase::Stopped;
        let event = AgentEvent::Done {
            content,
            tokens_input: self.tokens_input,
            tokens_output: self.tokens_output,
            history: ChatMessage::clone_all(&self.history),
        };
        Step { events: one_event(event), action: Action::Stop }
    }

    fn end_cancelled(&mut self) -> (r: Step)
        ensures
            final(self)@ == old(self)@.cancelled().state,
            r@.events == old(self)@.cancelled().events,
            r@.action == old(self)@.cancelled().action,
    {
        self.phase = Phase::Stopped;
        let event = AgentEvent::Cancelled {
            content: "(cancelled)".to_owned(),
            tokens_input: self.tokens_input,
            tokens_output: self.tokens_output,
            history: ChatMessage::clone_all(&self.history),
        };
        Step { events: one_event(event), action: Action::Stop }
    }

    fn end_unfinished(&mut self, content: String) -> (r: Step)
        ensures
            final(self)@ == old(self)@.unfinished(content@).state,
            r@.events == old(self)@.unfinished(content@).events,
            r@.action == old(self)@.unfinished(content@).action,
    {
        self.phase = Phase::Stopped;
        let event = AgentEvent::NeedsContinuation {
            content,
            tokens_input: self.tokens_input,
            tokens_output: self.tokens_output,
            history: ChatMessage::clone_all(&self.history),
        };
        Step { events: one_event(event), action: Action::Stop }
    }

    /// What the model is sent in the turn under way.
    fn build_request(&self, now: &str, tool_defs: &Vec<ToolDef>) -> (messages: Vec<ChatMessage>)
        requires
            ToolDef::views(tool_defs@) == agent::advertised(self@.tools, self@.permissions),
        ensures
            ChatMessage::views(messages@) == self@.request(now@),
    {
        let mut messages: Vec<ChatMessage> = Vec::new();
        let mut i: usize = 0;
        while i < self.system_layers.len()
            invariant
                i <= self.system_layers.len(),
                messages.len() == i,
                forall|k: int|
                    0 <= k < i ==> (#[trigger] messages@[k])@ == llm::text_message(
                        Role::System,
                        self.system_layers@[k]@,
                    ),
            decreases self.system_layers.len() - i,
        {
            messages.push(ChatMessage::system(self.system_layers[i].as_str()));
            i += 1;
        }
        assert(ChatMessage::views(messages@) =~= system_messages(self@.system_layers));
        let ctx = prompt::ReminderContext {
            step: self.step,
            max_steps: self.max_steps,
            working_directory: self.working_directory.clone(),
            tool_defs,
            last_turn_results: agent::extract_last_turn_results(&self.history),
            last_user_message: agent::extract_last_user_message(&self.history),
        };
        let reminder = prompt::system_reminder_at(&ctx, now);
        push_message(&mut messages, ChatMessage::system(reminder.as_str()));
        let ghost head = ChatMessage::views(messages@);
        let mut past = ChatMessage::clone_all(&self.history);
        messages.append(&mut past);
        assert(ChatMessage::views(messages@) =~= head + self@.history);
        let last: usize = self.max_steps.saturating_add(1);
        if self.step == last {
            push_message(&mut messages, ChatMessage::assistant_text(MAX_STEPS_PROMPT));
        }
        messages
    }

    /// Whether what an answer cost can be added to what the task has cost.
    pub fn can_count(&self, usage: &Usage) -> (b: bool)
        ensures
            b == (self@.tokens_input + usage.prompt_tokens <= u64::MAX && self@.tokens_output
                + usage.completion_tokens <= u64::MAX),
    {
        self.tokens_input <= u64::MAX - usage.prompt_tokens && self.tokens_output <= u64::MAX
            - usage.completion_tokens
    }

    /// Starts a turn at the time `now`.
    pub fn start_turn_at(&mut self, cancel: bool, now: &str) -> (r: Step)
        requires
            old(self)@.wf(),
            old(self)@.phase is Ready,
        ensures
            final(self)@ == old(self)@.turn_started(cancel, now@).state,
            r@.events == old(self)@.turn_started(cancel, now@).events,
            r@.action == old(self)@.turn_started(cancel, now@).action,
            final(self)@.wf(),
    {
        self.step = self.step + 1;
        if cancel {
            return self.end_cancelled();
        }
        let tool_defs = agent::advertised_tool_defs(&self.tools, &self.permissions);
        let messages = self.build_request(now, &tool_defs);
        let last: usize = self.max_steps.saturating_add(1);
        let tools: Vec<ToolDef> = if self.step == last {
            Vec::new()
        } else {
            tool_defs
        };
        let options = ChatOptions {
            model_id: self.options.model_id.clone(),
            temperature: self.options.temperature,
            max_tokens: self.options.max_tokens,
            tools,
        };
        assert(options@.tools =~= self@.request_options().tools);
        self.phase = Phase::Streaming { text: String::new() };
        Step { events: no_events(), action: Action::Stream { messages, options } }
    }

    /// Starts a turn now.
    pub fn start_turn(&mut self, cancel: bool) -> (r: Step)
        requires
            old(self)@.wf(),
            old(self)@.phase is Ready,
        ensures
            exists|now: Seq<char>|
                {
                    let t = #[trigger] old(self)@.turn_started(cancel, now);
                    final(self)@ == t.state && r@.events == t.events && r@.action == t.action
                },
            final(self)@.wf(),
    {
        let now = clock::local_time(clock::REMINDER_TIME);
        self.start_turn_at(cancel, now.as_str())
    }

    /// The model has answered.
    fn take_answer(&mut self, streamed: String, result: ChatResult) -> (r: Step)
        requires
            old(self)@.wf(),
            old(self)@.phase is Streaming,
            old(self)@.tokens_input + result.usage.prompt_tokens <= u64::MAX,
            old(self)@.tokens_output + result.usage.completion_tokens <= u64::MAX,
        ensures
            final(self)@ == old(self)@.answered(streamed@, result@).state,
            r@.events == old(self)@.answered(streamed@, result@).events,
            r@.action == old(self)@.answered(streamed@, result@).action,
            final(self)@.wf(),
    {
        let ghost t = self@.answered(streamed@, result@);
        self.tokens_input = self.tokens_input + result.usage.prompt_tokens;
        self.tokens_output = self.tokens_output + result.usage.completion_tokens;
        let last: usize = self.max_steps.saturating_add(1);
        let is_last: bool = self.step == last;
        let said = agent::assistant_result_text(&result, streamed.as_str());
        if result.tool_calls.len() == 0 {
            let finished = agent::assistant_turn_is_finished(&result);
            push_message(&mut self.history, ChatMessage::assistant_text(said.as_str()));
            if finished {
                return self.end_done(said);
            }
            if is_last {
                return self.end_unfinished(said);
            }
            self.phase = Phase::Ready;
            let tool_calls: Vec<ToolCallDisplay> = Vec::new();
            assert(ToolCallDisplay::views(tool_calls@) =~= Seq::empty());
            return Step {
                events: one_event(AgentEvent::TurnDone { text: said, tool_calls }),
                action: Action::NextTurn,
            };
        }
        if is_last {
            push_message(&mut self.history, ChatMessage::assistant_text(said.as_str()));
            let content = if said.as_str().is_empty() {
                "(max steps reached)".to_owned()
            } else {
                said
            };
            return self.end_unfinished(content);
        }
        let beside: Option<String> = if said.as_str().is_empty() {
            None
        } else {
            Some(said.clone())
        };
        let mut message = ChatMessage::assistant_tool_calls_with_content(
            ToolCall::clone_all(&result.tool_calls),
            beside,
        );
        message.reasoning_content = text::clone_opt(&result.reasoning_content);
        push_message(&mut self.history, message);
        let displays: Vec<ToolCallDisplay> = Vec::new();
        assert(ToolCallDisplay::views(displays@) =~= Seq::empty());
        self.phase = Phase::Calling(
            Turn {
                text: said,
                content: text::clone_opt(&result.content),
                calls: result.tool_calls,
                next: 0,
                displays,
            },
        );
        Step { events: no_events(), action: Action::NextCall }
    }

    /// Takes what the stream of the model's answer brings. The counts of tokens
    /// must not overflow.
    pub fn stream_event(&mut self, event: StreamEvent) -> (r: Step)
        requires
            old(self)@.wf(),
            old(self)@.phase is Streaming,
            event matches StreamEvent::Done(result) ==> old(self)@.tokens_input
                + result.usage.prompt_tokens <= u64::MAX && old(self)@.tokens_output
                + result.usage.completion_tokens <= u64::MAX,
        ensures
            ({
                let t = old(self)@.streamed(old(self)@.phase->text, event@);
                final(self)@ == t.state && r@.events == t.events && r@.action == t.action
            }),
            final(self)@.wf(),
    {
        match event {
            StreamEvent::Chunk(piece) => {
                let mut phase = Phase::Stopped;
                std::mem::swap(&mut phase, &mut self.phase);
                let so_far: String = match phase {
                    Phase::Streaming { text } => text,
                    _ => String::new(),
                };
                let text = text::cat2(so_far.as_str(), piece.as_str());
                self.phase = Phase::Streaming { text };
                Step { events: one_event(AgentEvent::TextDelta(piece)), action: Action::Receive }
            },
            StreamEvent::ReasoningChunk(piece) => Step {
                events: one_event(AgentEvent::ReasoningDelta(piece)),
                action: Action::Receive,
            },
            StreamEvent::Done(result) => {
                let streamed: String = match &self.phase {
                    Phase::Streaming { text } => text.clone(),
                    _ => String::new(),
                };
                self.take_answer(streamed, result)
            },
        }
    }

    /// The stream ended without an answer.
    pub fn stream_closed(&mut self) -> (r: Step)
        requires
            old(self)@.wf(),
            old(self)@.phase is Streaming,
        ensures
            ({
                let t = old(self)@.unfinished(old(self)@.phase->text);
                final(self)@ == t.state && r@.events == t.events && r@.action == t.action
            }),
            final(self)@.wf(),
    {
        let content: String = match &self.phase {
            Phase::Streaming { text } => text.clone(),
            _ => String::new(),
        };
        self.end_unfinished(content)
    }

    /// The stream broke with an error; the loop ends with it.
    pub fn stream_failed(&mut self, error: String) -> (r: Step)
        requires
            old(self)@.wf(),
            old(self)@.phase is Streaming,
        ensures
            final(self)@ == (LoopView { phase: PhaseView::Stopped, ..old(self)@ }),
            r@.events == Seq::<AgentEventView>::empty(),
            r@.action == (ActionView::Abort { error: error@ }),
            final(self)@.wf(),
    {
        self.phase = Phase::Stopped;
        Step { events: no_events(), action: Action::Abort { error } }
    }

    /// The user cancels while the model is answering or a permission is asked
    /// for.
    pub fn cancel(&mut self) -> (r: Step)
        requires
            old(self)@.wf(),
            old(self)@.phase is Streaming || old(self)@.phase is Asking,
        ensures
            final(self)@ == old(self)@.cancelled().state,
            r@.events == old(self)@.cancelled().events,
            r@.action == old(self)@.cancelled().action,
            final(self)@.wf(),
    {
        self.end_cancelled()
    }

    /// Records the result of the current call of `turn` and goes on to the next.
    fn finish_call(&mut self, turn: Turn, result: &str, display: ToolCallDisplay)
        requires
            turn.next < turn.calls.len(),
        ensures
            final(self)@ == old(self)@.call_done(turn@, result@, display@),
    {
        let mut turn = turn;
        let id = turn.calls[turn.next].id.clone();
        push_message(&mut self.history, ChatMessage::tool_result(id.as_str(), result));
        let ghost shown = ToolCallDisplay::views(turn.displays@);
        turn.displays.push(display);
        assert(ToolCallDisplay::views(turn.displays@) =~= shown.push(display@));
        turn.next = turn.next + 1;
        self.phase = Phase::Calling(turn);
    }

    /// The current call of `turn` fails, after `events`.
    fn fail_call(&mut self, turn: Turn, events: Vec<AgentEvent>, error: String) -> (r: Step)
        requires
            turn.next < turn.calls.len(),
        ensures
            ({
                let t = old(self)@.call_failed(turn@, AgentEvent::views(events@), error@);
                final(self)@ == t.state && r@.events == t.events && r@.action == t.action
            }),
    {
        let mut events = events;
        let id = turn.calls[turn.next].id.clone();
        let name = turn.calls[turn.next].function.name.clone();
        assert(turn@.calls[turn.next as int] == turn.calls@[turn.next as int]@);
        let result = text::cat2("Error: ", error.as_str());
        push_event(&mut events, AgentEvent::ToolFailed { id: id.clone(), error: error.clone() });
        let changes: Vec<FileChange> = Vec::new();
        assert(FileChange::views(changes@) =~= Seq::empty());
        let display = ToolCallDisplay { id, name, status: ToolStatus::Failed(error), changes };
        self.finish_call(turn, result.as_str(), display);
        Step { events, action: Action::NextCall }
    }

    /// Looks at the current call of `turn`, given its parsed arguments.
    fn check_call(&mut self, turn: Turn, parsed: Result<Json, String>) -> (r: Step)
        requires
            turn.next < turn.calls.len(),
        ensures
            ({
                let t = old(self)@.call_checked(turn@, parsed_view(parsed));
                final(self)@ == t.state && r@.events == t.events && r@.action == t.action
            }),
    {
        assert(turn@.calls[turn.next as int] == turn.calls@[turn.next as int]@);
        let call = turn.calls[turn.next].clone();
        let name = call.function.name.as_str();
        let mut events = starting_events(&call, &parsed);
        let tool = match find_tool(&self.tools, name) {
            Some(tool) => tool,
            None => {
                let error = text::cat2("Unknown tool: ", name);
                return self.fail_call(turn, events, error);
            },
        };
        let arguments = match parsed {
            Err(e) => {
                let error = text::cat2("Failed to parse arguments: ", e.as_str());
                return self.fail_call(turn, events, error);
            },
            Ok(arguments) => arguments,
        };
        match agent::permission_for(&self.permissions, name) {
            Permission::Deny => {
                let error = text::cat3(
                    "Permission denied: '",
                    name,
                    "' is not allowed for this agent",
                );
                self.fail_call(turn, events, error)
            },
            Permission::Ask => {
                let id = text::cat2("perm_", call.id.as_str());
                push_event(
                    &mut events,
                    AgentEvent::PermissionRequest {
                        id: id.clone(),
                        tool_name: call.function.name.clone(),
                        args: arguments.clone(),
                    },
                );
                self.phase = Phase::Asking(turn, arguments);
                Step { events, action: Action::AwaitPermission { id } }
            },
            Permission::Allow => {
                self.phase = Phase::Running(turn);
                Step { events, action: Action::Execute { tool, arguments } }
            },
        }
    }

    /// What the arguments of the next tool call of the turn denote.
    fn parse_arguments(&self) -> (parsed: Result<Json, String>)
        ensures
            self@.phase matches PhaseView::Calling(turn) ==> parsed_view(parsed)
                == current_arguments(turn),
    {
        match &self.phase {
            Phase::Calling(turn) => if turn.next < turn.calls.len() {
                let call = &turn.calls[turn.next];
                assert(turn@.calls[turn.next as int] == call@);
                json::parse_json(call.function.arguments.as_str())
            } else {
                Ok(Json::Null)
            },
            _ => Ok(Json::Null),
        }
    }

    /// Takes up the next tool call of the turn; after the last one the turn
    /// ends.
    pub fn next_call(&mut self, cancel: bool) -> (r: Step)
        requires
            old(self)@.wf(),
            old(self)@.phase is Calling,
        ensures
            ({
                let t = old(self)@.call_taken(old(self)@.phase->Calling_0, cancel);
                final(self)@ == t.state && r@.events == t.events && r@.action == t.action
            }),
            final(self)@.wf(),
    {
        let parsed = self.parse_arguments();
        self.next_parsed_call(cancel, parsed)
    }

    /// Takes up the next tool call of the turn, given its parsed arguments;
    /// after the last one the turn ends.
    pub fn next_parsed_call(&mut self, cancel: bool, parsed: Result<Json, String>) -> (r: Step)
        requires
            old(self)@.wf(),
            old(self)@.phase is Calling,
        ensures
            ({
                let t = old(self)@.parsed_call_taken(
                    old(self)@.phase->Calling_0,
                    cancel,
                    parsed_view(parsed),
                );
                final(self)@ == t.state && r@.events == t.events && r@.action == t.action
            }),
            final(self)@.wf(),
    {
        let mut phase = Phase::Stopped;
        std::mem::swap(&mut phase, &mut self.phase);
        match phase {
            Phase::Calling(turn) => {
                if turn.next == turn.calls.len() {
                    self.phase = Phase::Ready;
                    return Step {
                        events: one_event(
                            AgentEvent::TurnDone { text: turn.text, tool_calls: turn.displays },
                        ),
                        action: Action::NextTurn,
                    };
                }
                if cancel {
                    return self.end_cancelled();
                }
                assert(turn@.calls[turn.next as int] == turn.calls@[turn.next as int]@);
                let call = turn.calls[turn.next].clone();
                if text::same(call.function.name.as_str(), "finish_task") {
                    let answer = answer_from(&parsed, &turn.content);
                    push_message(&mut self.history, ChatMessage::assistant_text(answer.as_str()));
                    return self.end_done(answer);
                }
                let r = self.check_call(turn, parsed);
                proof {
                    lemma_call_checked_keeps_wf(old(self)@, turn@, parsed_view(parsed));
                }
                r
            },
            _ => Step { events: no_events(), action: Action::Stop },
        }
    }

    /// Takes the next answer of the user to a permission request; `None` where
    /// no answer can come any more. An answer to another request is passed
    /// over.
    pub fn permission_reply(&mut self, reply: Option<(String, bool)>) -> (r: Step)
        requires
            old(self)@.wf(),
            old(self)@.phase is Asking,
        ensures
            ({
                let t = old(self)@.permission_answered(
                    old(self)@.phase->Asking_0,
                    old(self)@.phase->Asking_1,
                    reply_view(reply),
                );
                final(self)@ == t.state && r@.events == t.events && r@.action == t.action
            }),
            final(self)@.wf(),
    {
        let mut phase = Phase::Stopped;
        std::mem::swap(&mut phase, &mut self.phase);
        match phase {
            Phase::Asking(turn, arguments) => {
                assert(turn.next < turn.calls.len());
                assert(turn@.calls[turn.next as int] == turn.calls@[turn.next as int]@);
                let call = turn.calls[turn.next].clone();
                let id = text::cat2("perm_", call.id.as_str());
                let allowed: bool = match reply {
                    Some((answered, allowed)) => {
                        if !text::same(answered.as_str(), id.as_str()) {
                            self.phase = Phase::Asking(turn, arguments);
                            return Step {
                                events: no_events(),
                                action: Action::AwaitPermission { id },
                            };
                        }
                        allowed
                    },
                    None => false,
                };
                if !allowed {
                    let error = text::cat3(
                        "Permission denied by user for tool '",
                        call.function.name.as_str(),
                        "'",
                    );
                    let r = self.fail_call(turn, no_events(), error);
                    proof {
                        lemma_call_failed_keeps_wf(old(self)@, turn@, Seq::empty(), error@);
                    }
                    return r;
                }
                let tool: usize = match find_tool(&self.tools, call.function.name.as_str()) {
                    Some(tool) => tool,
                    None => 0,
                };
                self.phase = Phase::Running(turn);
                Step { events: no_events(), action: Action::Execute { tool, arguments } }
            },
            _ => Step { events: no_events(), action: Action::Stop },
        }
    }

    /// Takes what came of the running tool.
    pub fn tool_finished(&mut self, outcome: Result<ToolExecutionResult, String>) -> (r: Step)
        requires
            old(self)@.wf(),
            old(self)@.phase is Running,
        ensures
            ({
                let t = old(self)@.tool_ended(old(self)@.phase->Running_0, outcome_view(outcome));
                final(self)@ == t.state && r@.events == t.events && r@.action == t.action
            }),
            final(self)@.wf(),
    {
        let mut phase = Phase::Stopped;
        std::mem::swap(&mut phase, &mut self.phase);
        match phase {
            Phase::Running(turn) => {
                assert(turn.next < turn.calls.len());
                assert(turn@.calls[turn.next as int] == turn.calls@[turn.next as int]@);
                match outcome {
                    Ok(output) => {
                        let id = turn.calls[turn.next].id.clone();
                        let name = turn.calls[turn.next].function.name.clone();
                        let display = ToolCallDisplay {
                            id: id.clone(),
                            name: name.clone(),
                            status: ToolStatus::Success,
                            changes: FileChange::clone_all(&output.changes),
                        };
                        self.finish_call(turn, output.output.as_str(), display);
                        proof {
                            lemma_call_done_keeps_wf(old(self)@, turn@, output.output@, display@);
                        }
                        let event = AgentEvent::ToolCompleted {
                            id,
                            name,
                            result: output.output,
                            changes: output.changes,
                            rollback_entries: output.rollback_entries,
                        };
                        Step { events: one_event(event), action: Action::NextCall }
                    },
                    Err(error) => {
                        let r = self.fail_call(turn, no_events(), error);
                        proof {
                            lemma_call_failed_keeps_wf(old(self)@, turn@, Seq::empty(), error@);
                        }
                        r
                    },
                }
            },
            _ => Step { events: no_events(), action: Action::Stop },
        }
    }
}

pub proof fn lemma_call_done_keeps_wf(
    state: LoopView,
    turn: TurnView,
    result: Seq<char>,
    display: ToolCallDisplayView,
)
    requires
        state.wf(),
        state.answers(turn),
        1 <= state.step < state.final_step(),
        turn.next < turn.calls.len(),
        turn.next < usize::MAX,
        display.id == turn.calls[turn.next as int].id,
        display.name == turn.calls[turn.next as int].function.name,
        display.status matches ToolStatusView::Failed(error) ==> result == "Error: "@ + error,
    ensures
        state.call_done(turn, result, display).wf(),
{
    let after = state.call_done(turn, result, display);
    let next = after.phase->Calling_0;
    let asked = state.history.len() - turn.next - 1;
    assert(after.history.len() - next.next - 1 == asked);
    assert forall|i: int| 0 <= i < next.next implies {
        &&& (#[trigger] after.history[asked + 1 + i]).role == Role::Tool
        &&& after.history[asked + 1 + i].tool_call_id == Some(next.calls[i].id)
        &&& after.history[asked + 1 + i].content is Some
        &&& next.displays[i].id == next.calls[i].id
        &&& next.displays[i].name == next.calls[i].function.name
        &&& next.displays[i].status matches ToolStatusView::Failed(error)
            ==> after.history[asked + 1 + i].content == Some("Error: "@ + error)
    } by {
        if i < turn.next {
            assert(after.history[asked + 1 + i] == state.history[asked + 1 + i]);
            assert(next.displays[i] == turn.displays[i]);
        }
    }
}

pub proof fn lemma_call_failed_keeps_wf(
    state: LoopView,
    turn: TurnView,
    events: Seq<AgentEventView>,
    error: Seq<char>,
)
    requires
        state.wf(),
        state.answers(turn),
        1 <= state.step < state.final_step(),
        turn.next < turn.calls.len(),
        turn.next < usize::MAX,
    ensures
        state.call_failed(turn, events, error).state.wf(),
{
    let call = turn.calls[turn.next as int];
    lemma_call_done_keeps_wf(
        state,
        turn,
        "Error: "@ + error,
        ToolCallDisplayView {
            id: call.id,
            name: call.function.name,
            status: ToolStatusView::Failed(error),
            changes: Seq::empty(),
        },
    );
}

pub proof fn lemma_call_checked_keeps_wf(
    state: LoopView,
    turn: TurnView,
    parsed: ParsedArguments,
)
    requires
        state.wf(),
        state.answers(turn),
        1 <= state.step < state.final_step(),
        turn.next < turn.calls.len(),
        turn.next < usize::MAX,
    ensures
        state.call_checked(turn, parsed).state.wf(),
{
    let call = turn.calls[turn.next as int];
    let name = call.function.name;
    let events = call_events(call, parsed);
    lemma_call_failed_keeps_wf(state, turn, events, "Unknown tool: "@ + name);
    match parsed {
        Err(e) => lemma_call_failed_keeps_wf(state, turn, events, "Failed to parse arguments: "@ + e),
        Ok(_) => {},
    }
    lemma_call_failed_keeps_wf(
        state,
        turn,
        events,
        "Permission denied: '"@ + name + "' is not allowed for this agent"@,
    );
}

} // verus!
