//! What holds of the agent loop as a whole.

use super::run::{ActionView, LoopView, PhaseView, Transition, TurnView};
use super::AgentEventView;
use crate::agent;
use crate::agent::run;
use crate::config::Permission;
use crate::json;
use crate::json::JsonView;
use crate::llm::{ChatMessageView, Role, StreamEventView, ToolDefView, ToolExecutionResultView};
use crate::protocol::ToolStatusView;
use vstd::prelude::*;

verus! {

/// What can happen to a loop.
pub enum Input {
    StartTurn { cancel: bool, now: Seq<char> },
    Stream(StreamEventView),
    StreamClosed,
    StreamFailed { error: Seq<char> },
    Cancel,
    NextCall { cancel: bool },
    Permission(Option<(Seq<char>, bool)>),
    ToolEnded(Result<ToolExecutionResultView, Seq<char>>),
}

/// Whether this can happen in `state`. The counts of tokens must not
/// overflow, and a list of calls fits into memory.
pub open spec fn enabled(state: LoopView, input: Input) -> bool {
    match input {
        Input::StartTurn { cancel, now } => state.phase is Ready,
        Input::Stream(event) => state.phase is Streaming && (event matches StreamEventView::Done(
            result,
        ) ==> state.tokens_input + result.usage.prompt_tokens <= u64::MAX && state.tokens_output
            + result.usage.completion_tokens <= u64::MAX && result.tool_calls.len() <= usize::MAX),
        Input::StreamClosed => state.phase is Streaming,
        Input::StreamFailed { error } => state.phase is Streaming,
        Input::Cancel => state.phase is Streaming || state.phase is Asking,
        Input::NextCall { cancel } => state.phase matches PhaseView::Calling(turn)
            && turn.calls.len() <= usize::MAX,
        Input::Permission(reply) => state.phase matches PhaseView::Asking(turn, _)
            && turn.calls.len() <= usize::MAX,
        Input::ToolEnded(outcome) => state.phase matches PhaseView::Running(turn)
            && turn.calls.len() <= usize::MAX,
    }
}

/// What the loop does then.
pub open spec fn step(state: LoopView, input: Input) -> Transition {
    match input {
        Input::StartTurn { cancel, now } => state.turn_started(cancel, now),
        Input::Stream(event) => state.streamed(state.phase->text, event),
        Input::StreamClosed => state.unfinished(state.phase->text),
        Input::StreamFailed { error } => Transition {
            state: LoopView { phase: PhaseView::Stopped, ..state },
            events: Seq::empty(),
            action: ActionView::Abort { error },
        },
        Input::Cancel => state.cancelled(),
        Input::NextCall { cancel } => state.call_taken(state.phase->Calling_0, cancel),
        Input::Permission(reply) => state.permission_answered(
            state.phase->Asking_0,
            state.phase->Asking_1,
            reply,
        ),
        Input::ToolEnded(outcome) => state.tool_ended(state.phase->Running_0, outcome),
    }
}

/// The states that a loop goes through.
pub open spec fn after(state: LoopView, inputs: Seq<Input>) -> LoopView
    decreases inputs.len(),
{
    if inputs.len() == 0 {
        state
    } else {
        step(after(state, inputs.drop_last()), inputs.last()).state
    }
}

/// Whether these can happen one after the other.
pub open spec fn possible(state: LoopView, inputs: Seq<Input>) -> bool
    decreases inputs.len(),
{
    inputs.len() == 0 || possible(state, inputs.drop_last()) && enabled(
        after(state, inputs.drop_last()),
        inputs.last(),
    )
}

/// How often the model is asked.
pub open spec fn requests(state: LoopView, inputs: Seq<Input>) -> nat
    decreases inputs.len(),
{
    if inputs.len() == 0 {
        0
    } else {
        requests(state, inputs.drop_last()) + (if step(
            after(state, inputs.drop_last()),
            inputs.last(),
        ).action is Stream {
            1nat
        } else {
            0nat
        })
    }
}

/// Whether an event ends a task.
pub open spec fn is_last_event(event: AgentEventView) -> bool {
    event is Done || event is Cancelled || event is NeedsContinuation
}

/// The model is told of exactly the tools that are not denied.
pub proof fn law_denied_tools_are_hidden(
    tools: Seq<ToolDefView>,
    permissions: Map<Seq<char>, Permission>,
    def: ToolDefView,
)
    ensures
        agent::advertised(tools, permissions).contains(def) <==> tools.contains(def)
            && agent::permission_of(permissions, def.function.name) != Permission::Deny,
    decreases tools.len(),
{
    let shown = agent::advertised(tools, permissions);
    if tools.len() > 0 {
        law_denied_tools_are_hidden(tools.drop_last(), permissions, def);
        let before = agent::advertised(tools.drop_last(), permissions);
        if tools.contains(def) && def != tools.last() {
            let i = choose|i: int| 0 <= i < tools.len() && tools[i] == def;
            assert(tools.drop_last()[i] == def);
        }
        if tools.drop_last().contains(def) {
            let i = choose|i: int| 0 <= i < tools.len() - 1 && tools.drop_last()[i] == def;
            assert(tools[i] == def);
        }
        assert(tools[tools.len() - 1] == tools.last());
        if shown != before {
            assert(shown == before.push(tools.last()));
            assert(shown[before.len() as int] == tools.last());
            if before.contains(def) {
                let i = choose|i: int| 0 <= i < before.len() && before[i] == def;
                assert(shown[i] == def);
            }
            if shown.contains(def) && def != tools.last() {
                let i = choose|i: int| 0 <= i < shown.len() && shown[i] == def;
                assert(before[i] == def);
            }
        }
    }
}

proof fn lemma_tool_index(tools: Seq<ToolDefView>, name: Seq<char>)
    ensures
        run::tool_index(tools, name) matches Some(k) ==> k < tools.len()
            && tools[k as int].function.name == name,
    decreases tools.len(),
{
    if tools.len() > 0 && tools[0].function.name != name {
        lemma_tool_index(tools.skip(1), name);
    }
}

/// Every step keeps the invariant of the loop.
pub proof fn law_step_keeps_wf(state: LoopView, input: Input)
    requires
        state.wf(),
        enabled(state, input),
    ensures
        step(state, input).state.wf(),
{
    match input {
        Input::NextCall { cancel } => {
            let turn = state.phase->Calling_0;
            if turn.next < turn.calls.len() {
                run::lemma_call_checked_keeps_wf(state, turn, run::current_arguments(turn));
            }
        },
        Input::Permission(reply) => {
            let turn = state.phase->Asking_0;
            run::lemma_call_failed_keeps_wf(
                state,
                turn,
                Seq::empty(),
                "Permission denied by user for tool '"@
                    + turn.calls[turn.next as int].function.name + "'"@,
            );
        },
        Input::ToolEnded(outcome) => {
            let turn = state.phase->Running_0;
            let call = turn.calls[turn.next as int];
            match outcome {
                Ok(output) => {
                    run::lemma_call_done_keeps_wf(
                        state,
                        turn,
                        output.output,
                        crate::protocol::ToolCallDisplayView {
                            id: call.id,
                            name: call.function.name,
                            status: crate::protocol::ToolStatusView::Success,
                            changes: output.changes,
                        },
                    );
                },
                Err(error) => {
                    run::lemma_call_failed_keeps_wf(state, turn, Seq::empty(), error);
                },
            }
        },
        _ => {},
    }
}

/// A tool runs only if it is not denied; where the user must consent, it runs
/// only after the user has allowed this very call.
pub proof fn law_tools_run_with_permission(state: LoopView, input: Input)
    requires
        state.wf(),
        enabled(state, input),
        step(state, input).action is Execute,
        state.tools.len() <= usize::MAX,
    ensures
        ({
            let tool = step(state, input).action->tool;
            &&& tool < state.tools.len()
            &&& match agent::permission_of(
                state.permissions,
                state.tools[tool as int].function.name,
            ) {
                Permission::Allow => true,
                Permission::Deny => false,
                Permission::Ask => state.phase matches PhaseView::Asking(turn, _) && input
                    == Input::Permission(
                    Some((run::permission_id(turn.calls[turn.next as int].id), true)),
                ),
            }
        }),
{
    match input {
        Input::NextCall { cancel } => {
            let turn = state.phase->Calling_0;
            lemma_tool_index(state.tools, turn.calls[turn.next as int].function.name);
        },
        Input::Permission(reply) => {
            let turn = state.phase->Asking_0;
            lemma_tool_index(state.tools, turn.calls[turn.next as int].function.name);
        },
        _ => {},
    }
}

/// A tool gets the arguments that were checked: those that the call's text
/// denotes, and where the user was asked, those that the user was shown.
pub proof fn law_tools_get_checked_arguments(state: LoopView, input: Input)
    requires
        state.wf(),
        enabled(state, input),
    ensures
        ({
            let t = step(state, input);
            &&& t.action matches ActionView::Execute { arguments, .. } ==> match state.phase {
                PhaseView::Calling(turn) => json::json_parse(
                    turn.calls[turn.next as int].function.arguments,
                ) == Ok::<JsonView, Seq<char>>(arguments),
                PhaseView::Asking(_, shown) => arguments == shown,
                _ => false,
            }
            &&& t.state.phase matches PhaseView::Asking(turn, shown) ==> match state.phase {
                PhaseView::Calling(_) => json::json_parse(
                    turn.calls[turn.next as int].function.arguments,
                ) == Ok::<JsonView, Seq<char>>(shown) && t.events.last()
                    == (AgentEventView::PermissionRequest {
                    id: run::permission_id(turn.calls[turn.next as int].id),
                    tool_name: turn.calls[turn.next as int].function.name,
                    args: shown,
                }),
                PhaseView::Asking(before, kept) => turn == before && shown == kept,
                _ => false,
            }
        }),
{
}

/// A step changes neither the task's prompt nor its tools and permissions, and
/// the conversation only grows.
pub proof fn law_conversation_only_grows(state: LoopView, input: Input)
    requires
        state.wf(),
        enabled(state, input),
    ensures
        ({
            let next = step(state, input).state;
            &&& next.system_layers == state.system_layers
            &&& next.options == state.options
            &&& next.tools == state.tools
            &&& next.permissions == state.permissions
            &&& next.max_steps == state.max_steps
            &&& next.working_directory == state.working_directory
            &&& state.history.len() <= next.history.len()
            &&& next.history.take(state.history.len() as int) == state.history
            &&& state.tokens_input <= next.tokens_input
            &&& state.tokens_output <= next.tokens_output
        }),
{
    let next = step(state, input).state;
    assert(next.history.take(state.history.len() as int) =~= state.history);
}

/// The model is asked at most once more than the number of turns says.
pub proof fn law_requests_are_bounded(state: LoopView, inputs: Seq<Input>)
    requires
        state.wf(),
        possible(state, inputs),
    ensures
        after(state, inputs).wf(),
        after(state, inputs).max_steps == state.max_steps,
        state.step + requests(state, inputs) <= after(state, inputs).step,
        requests(state, inputs) <= state.max_steps + 1,
    decreases inputs.len(),
{
    if inputs.len() > 0 {
        law_requests_are_bounded(state, inputs.drop_last());
        let before = after(state, inputs.drop_last());
        law_step_keeps_wf(before, inputs.last());
        law_conversation_only_grows(before, inputs.last());
    }
}

/// In the last turn the model is offered no tool and told to stop, and the
/// loop ends with that turn.
pub proof fn law_last_turn_is_text_only(state: LoopView, now: Seq<char>, event: StreamEventView)
    requires
        state.wf(),
        state.phase is Ready,
        state.step + 1 == state.final_step(),
        event is Done,
    ensures
        ({
            let asked = state.turn_started(false, now);
            &&& asked.action is Stream
            &&& asked.action->options.tools.len() == 0
            &&& asked.action->messages.last().content == Some(run::MAX_STEPS_PROMPT@)
            &&& asked.state.streamed(asked.state.phase->text, event).state.phase is Stopped
        }),
{
}

/// When the loop ends, it says so in one last event, unless it hands out an
/// error; until then no event ends the task.
pub proof fn law_end_is_reported_once(state: LoopView, input: Input)
    requires
        state.wf(),
        enabled(state, input),
    ensures
        ({
            let t = step(state, input);
            &&& t.state.phase is Stopped ==> t.action is Abort && t.events.len() == 0 || t.action
                is Stop && t.events.len() == 1 && is_last_event(t.events[0])
            &&& !(t.state.phase is Stopped) ==> forall|i: int|
                0 <= i < t.events.len() ==> !is_last_event(#[trigger] t.events[i])
        }),
{
}

/// Nothing happens to a loop that has ended.
pub proof fn law_end_is_final(state: LoopView, input: Input)
    requires
        state.phase is Stopped,
    ensures
        !enabled(state, input),
{
}

/// When a turn with tool calls ends, each call has been answered once, in
/// order, right behind the message that asked for them. What is reported of a
/// call goes by its identifier and its tool, and where it failed, the answer
/// is the error that is reported.
pub proof fn law_every_call_is_answered(state: LoopView, turn: TurnView, cancel: bool)
    requires
        state.wf(),
        state.phase == PhaseView::Calling(turn),
        turn.next == turn.calls.len(),
    ensures
        ({
            let t = state.call_taken(turn, cancel);
            let history = t.state.history;
            let asked = history.len() - turn.calls.len() - 1;
            &&& t.events == seq![
                AgentEventView::TurnDone { text: turn.text, tool_calls: turn.displays },
            ]
            &&& turn.displays.len() == turn.calls.len()
            &&& 0 <= asked
            &&& history[asked].tool_calls == Some(turn.calls)
            &&& forall|i: int|
                0 <= i < turn.calls.len() ==> (#[trigger] history[asked + 1 + i]).role == Role::Tool
                    && history[asked + 1 + i].tool_call_id == Some(turn.calls[i].id)
                    && history[asked + 1 + i].content is Some && turn.displays[i].id
                    == turn.calls[i].id && turn.displays[i].name == turn.calls[i].function.name
                    && (turn.displays[i].status matches ToolStatusView::Failed(error)
                    ==> history[asked + 1 + i].content == Some("Error: "@ + error))
        }),
{
}

/// What the model said and did before is what it is sent again: the request of
/// a turn ends with the conversation.
pub proof fn law_request_holds_conversation(state: LoopView, now: Seq<char>)
    requires
        state.wf(),
        state.phase is Ready,
    ensures
        ({
            let messages = state.turn_started(false, now).action->messages;
            let start = state.system_layers.len() + 1;
            &&& messages.len() >= start + state.history.len()
            &&& messages.subrange(start as int, (start + state.history.len()) as int)
                == state.history
            &&& forall|i: int| 0 <= i < start ==> (#[trigger] messages[i]).role == Role::System
        }),
{
    let messages = state.turn_started(false, now).action->messages;
    let start = state.system_layers.len() + 1;
    assert(messages.subrange(start as int, (start + state.history.len()) as int)
        =~= state.history);
}

} // verus!
