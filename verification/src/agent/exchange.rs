//! What the model and the user are told in the course of a task.

use super::laws;
use super::laws::{after, enabled, possible, step, Input};
use super::run;
use super::run::{ActionView, LoopView, PhaseView, TurnView};
use super::AgentEventView;
use crate::agent;
use crate::config::Permission;
use crate::json;
use crate::json::JsonView;
use crate::llm::stream;
use crate::llm::{
    ChatMessage, ChatMessageView, ChatOptionsView, ChatResultView, Role, StreamEventView,
    ToolCallView, ToolDefView, ToolExecutionResultView,
};
use crate::prompt;
use crate::prompt::ToolResultSummary;
use crate::protocol::ToolStatusView;
use crate::text;
use vstd::prelude::*;

verus! {

/// What a tool puts out is what the model gets for the call: the next message
/// of the conversation is a tool message for this very call with the tool's
/// output as its content. The user is told of the same output and of the
/// changes that the tool made.
pub proof fn law_tool_output_reaches_the_model(
    state: LoopView,
    turn: TurnView,
    output: ToolExecutionResultView,
)
    requires
        state.wf(),
        state.phase == PhaseView::Running(turn),
        enabled(state, Input::ToolEnded(Ok(output))),
    ensures
        ({
            let t = step(state, Input::ToolEnded(Ok(output)));
            let call = turn.calls[turn.next as int];
            let told = t.state.history.last();
            &&& t.state.history.len() == state.history.len() + 1
            &&& told.role == Role::Tool
            &&& told.tool_call_id == Some(call.id)
            &&& told.content == Some(output.output)
            &&& told.tool_calls is None
            &&& t.events.len() == 1
            &&& t.events[0] == (AgentEventView::ToolCompleted {
                id: call.id,
                name: call.function.name,
                result: output.output,
                changes: output.changes,
                rollback_entries: output.rollback_entries,
            })
            &&& t.action is NextCall
            &&& t.state.phase matches PhaseView::Calling(next) && next.next == turn.next + 1
                && next.calls == turn.calls && next.text == turn.text && next.displays.len()
                == turn.displays.len() + 1 && next.displays.last().status
                == ToolStatusView::Success && next.displays.last().changes == output.changes
                && next.displays.take(turn.displays.len() as int) == turn.displays
        }),
{
    let next = step(state, Input::ToolEnded(Ok(output))).state.phase->Calling_0;
    assert(next.displays.take(turn.displays.len() as int) =~= turn.displays);
}

/// The error of a tool that failed is what the model gets for the call, marked
/// as an error; the user is told of the same error.
pub proof fn law_tool_errors_reach_the_model(state: LoopView, turn: TurnView, error: Seq<char>)
    requires
        state.wf(),
        state.phase == PhaseView::Running(turn),
        enabled(state, Input::ToolEnded(Err(error))),
    ensures
        ({
            let t = step(state, Input::ToolEnded(Err(error)));
            let call = turn.calls[turn.next as int];
            let told = t.state.history.last();
            &&& t.state.history.len() == state.history.len() + 1
            &&& told.role == Role::Tool
            &&& told.tool_call_id == Some(call.id)
            &&& told.content == Some("Error: "@ + error)
            &&& told.tool_calls is None
            &&& t.events.len() == 1
            &&& t.events[0] == (AgentEventView::ToolFailed { id: call.id, error })
            &&& t.action is NextCall
            &&& t.state.phase matches PhaseView::Calling(next) && next.next == turn.next + 1
                && next.calls == turn.calls && next.text == turn.text && next.displays.len()
                == turn.displays.len() + 1 && next.displays.last().status
                == ToolStatusView::Failed(error) && next.displays.last().changes.len() == 0
        }),
{
}

/// Whether `b` is a later state of the task that `a` is a state of.
pub open spec fn continues(a: LoopView, b: LoopView) -> bool {
    &&& a.system_layers == b.system_layers
    &&& a.history.len() <= b.history.len()
    &&& forall|i: int| 0 <= i < a.history.len() ==> #[trigger] b.history[i] == a.history[i]
}

proof fn lemma_step_continues(state: LoopView, input: Input)
    requires
        state.wf(),
        enabled(state, input),
    ensures
        step(state, input).state.wf(),
        continues(state, step(state, input).state),
{
    laws::law_step_keeps_wf(state, input);
    laws::law_conversation_only_grows(state, input);
    let next = step(state, input).state;
    assert forall|i: int| 0 <= i < state.history.len() implies #[trigger] next.history[i]
        == state.history[i] by {
        assert(next.history.take(state.history.len() as int)[i] == next.history[i]);
    }
}

/// However a task goes on, it stays in a valid state, and what the
/// conversation holds stays in it.
pub proof fn law_the_past_stays(state: LoopView, inputs: Seq<Input>)
    requires
        state.wf(),
        possible(state, inputs),
    ensures
        after(state, inputs).wf(),
        continues(state, after(state, inputs)),
    decreases inputs.len(),
{
    if inputs.len() > 0 {
        law_the_past_stays(state, inputs.drop_last());
        lemma_step_continues(after(state, inputs.drop_last()), inputs.last());
    }
}

proof fn lemma_split(state: LoopView, inputs: Seq<Input>, k: int)
    requires
        possible(state, inputs),
        0 <= k <= inputs.len(),
    ensures
        possible(state, inputs.take(k)),
        possible(after(state, inputs.take(k)), inputs.skip(k)),
        after(after(state, inputs.take(k)), inputs.skip(k)) == after(state, inputs),
    decreases inputs.len(),
{
    let rest = inputs.skip(k);
    let split = after(state, inputs.take(k));
    if k == inputs.len() {
        assert(inputs.take(k) =~= inputs);
        assert(rest.len() == 0);
        assert(after(split, rest) == split);
    } else {
        let before = inputs.drop_last();
        assert(possible(state, before));
        lemma_split(state, before, k);
        assert(before.take(k) =~= inputs.take(k));
        assert(rest.drop_last() =~= before.skip(k));
        assert(rest.last() == inputs.last());
        let end = after(state, before);
        assert(after(split, rest.drop_last()) == end);
        assert(after(state, inputs) == step(end, inputs.last()).state);
        assert(after(split, rest) == step(end, inputs.last()).state);
        assert(enabled(end, inputs.last()));
        assert(possible(split, rest));
    }
}

/// Whatever happens after a tool has come to its end, the conversation still
/// holds the answer to the call: what the tool put out, or its error.
pub proof fn law_answers_stay(
    state: LoopView,
    inputs: Seq<Input>,
    k: int,
    outcome: Result<ToolExecutionResultView, Seq<char>>,
)
    requires
        state.wf(),
        possible(state, inputs),
        0 <= k < inputs.len(),
        inputs[k] == Input::ToolEnded(outcome),
    ensures
        ({
            let before = after(state, inputs.take(k));
            let turn = before.phase->Running_0;
            let answer = after(state, inputs).history[before.history.len() as int];
            &&& before.phase is Running
            &&& before.history.len() < after(state, inputs).history.len()
            &&& answer.role == Role::Tool
            &&& answer.tool_call_id == Some(turn.calls[turn.next as int].id)
            &&& answer.content == match outcome {
                Ok(output) => Some(output.output),
                Err(error) => Some("Error: "@ + error),
            }
        }),
{
    lemma_split(state, inputs, k);
    lemma_split(state, inputs, k + 1);
    law_the_past_stays(state, inputs.take(k));
    let before = after(state, inputs.take(k));
    let next = after(state, inputs.take(k + 1));
    assert(inputs.take(k + 1).drop_last() =~= inputs.take(k));
    assert(inputs.take(k + 1).last() == inputs[k]);
    lemma_step_continues(before, inputs[k]);
    law_the_past_stays(next, inputs.skip(k + 1));
    let turn = before.phase->Running_0;
    match outcome {
        Ok(output) => law_tool_output_reaches_the_model(before, turn, output),
        Err(error) => law_tool_errors_reach_the_model(before, turn, error),
    }
    assert(after(state, inputs).history[before.history.len() as int] == next.history.last());
}

/// Whenever the model is asked after a tool has come to its end, the request
/// holds the answer to the call: what the tool put out, or its error.
pub proof fn law_requests_hold_the_answers(
    state: LoopView,
    inputs: Seq<Input>,
    k: int,
    outcome: Result<ToolExecutionResultView, Seq<char>>,
    now: Seq<char>,
)
    requires
        state.wf(),
        possible(state, inputs),
        0 <= k < inputs.len(),
        inputs[k] == Input::ToolEnded(outcome),
        after(state, inputs).phase is Ready,
    ensures
        ({
            let before = after(state, inputs.take(k));
            let turn = before.phase->Running_0;
            let asked = step(after(state, inputs), Input::StartTurn { cancel: false, now });
            let answer = asked.action->messages[(state.system_layers.len() + 1
                + before.history.len()) as int];
            &&& asked.action is Stream
            &&& state.system_layers.len() + 1 + before.history.len()
                < asked.action->messages.len()
            &&& answer.role == Role::Tool
            &&& answer.tool_call_id == Some(turn.calls[turn.next as int].id)
            &&& answer.content == match outcome {
                Ok(output) => Some(output.output),
                Err(error) => Some("Error: "@ + error),
            }
        }),
{
    law_answers_stay(state, inputs, k, outcome);
    law_the_past_stays(state, inputs);
    let end = after(state, inputs);
    laws::law_request_holds_conversation(end, now);
    let messages = step(end, Input::StartTurn { cancel: false, now }).action->messages;
    let start = state.system_layers.len() + 1;
    let n = after(state, inputs.take(k)).history.len();
    assert(messages.subrange(start as int, (start + end.history.len()) as int)[n as int]
        == messages[(start + n) as int]);
}

/// Whether there is a tool with this name.
pub open spec fn has_tool(tools: Seq<ToolDefView>, name: Seq<char>) -> bool {
    exists|i: int| 0 <= i < tools.len() && (#[trigger] tools[i]).function.name == name
}

pub proof fn lemma_first_tool(tools: Seq<ToolDefView>, name: Seq<char>)
    ensures
        has_tool(tools, name) == (run::tool_index(tools, name) is Some),
        run::tool_index(tools, name) matches Some(k) ==> k < tools.len()
            && tools[k as int].function.name == name && forall|i: int|
            0 <= i < k ==> (#[trigger] tools[i]).function.name != name,
    decreases tools.len(),
{
    if tools.len() > 0 {
        let rest = tools.skip(1);
        lemma_first_tool(rest, name);
        if tools[0].function.name == name {
            assert(has_tool(tools, name));
        } else {
            if has_tool(tools, name) {
                let i = choose|i: int| 0 <= i < tools.len() && tools[i].function.name == name;
                assert(rest[i - 1].function.name == name);
            }
            match run::tool_index(rest, name) {
                Some(k) => {
                    assert(tools[(k + 1) as int] == rest[k as int]);
                    assert forall|i: int| 0 <= i < k + 1 implies (#[trigger] tools[i]).function.name
                        != name by {
                        if i > 0 {
                            assert(tools[i] == rest[i - 1]);
                        }
                    }
                },
                None => {},
            }
        }
    }
}

/// A call that cannot run is answered all the same: the model learns that
/// there is no such tool, that the arguments cannot be read, or that the tool
/// is denied, and the user is told of the same error.
pub proof fn law_refused_calls_are_explained(state: LoopView, turn: TurnView)
    requires
        state.wf(),
        state.phase == PhaseView::Calling(turn),
        enabled(state, Input::NextCall { cancel: false }),
        turn.next < turn.calls.len(),
        turn.calls[turn.next as int].function.name != "finish_task"@,
    ensures
        ({
            let t = step(state, Input::NextCall { cancel: false });
            let call = turn.calls[turn.next as int];
            let name = call.function.name;
            let parsed = json::json_parse(call.function.arguments);
            let denied = state.permissions.contains_key(name) && state.permissions[name]
                == Permission::Deny;
            let refused = !has_tool(state.tools, name) || parsed is Err || denied;
            let error = if !has_tool(state.tools, name) {
                "Unknown tool: "@ + name
            } else if parsed is Err {
                "Failed to parse arguments: "@ + parsed->Err_0
            } else {
                "Permission denied: '"@ + name + "' is not allowed for this agent"@
            };
            &&& refused ==> {
                let told = t.state.history.last();
                &&& t.state.history.len() == state.history.len() + 1
                &&& told.role == Role::Tool
                &&& told.tool_call_id == Some(call.id)
                &&& told.content == Some("Error: "@ + error)
                &&& t.events.last() == (AgentEventView::ToolFailed { id: call.id, error })
                &&& t.action is NextCall
                &&& t.state.phase matches PhaseView::Calling(next) && next.next == turn.next + 1
                    && next.calls == turn.calls && next.displays.last().status
                    == ToolStatusView::Failed(error)
            }
            &&& !refused ==> t.state.history == state.history && (t.action is Execute || t.action
                is AwaitPermission)
        }),
{
    lemma_first_tool(state.tools, turn.calls[turn.next as int].function.name);
}

/// Where the user refuses a call, or can no longer answer, the model learns
/// that the user denied it, and the tool does not run.
pub proof fn law_refusals_of_the_user_are_explained(
    state: LoopView,
    turn: TurnView,
    arguments: JsonView,
    reply: Option<(Seq<char>, bool)>,
)
    requires
        state.wf(),
        state.phase == PhaseView::Asking(turn, arguments),
        enabled(state, Input::Permission(reply)),
        reply matches Some(r) ==> !r.1 && r.0 == "perm_"@ + turn.calls[turn.next as int].id,
    ensures
        ({
            let t = step(state, Input::Permission(reply));
            let call = turn.calls[turn.next as int];
            let error = "Permission denied by user for tool '"@ + call.function.name + "'"@;
            let told = t.state.history.last();
            &&& t.state.history.len() == state.history.len() + 1
            &&& told.role == Role::Tool
            &&& told.tool_call_id == Some(call.id)
            &&& told.content == Some("Error: "@ + error)
            &&& t.events == seq![AgentEventView::ToolFailed { id: call.id, error }]
            &&& t.action is NextCall
        }),
{
}

/// The user's consent to the call that is asked for lets it run; an answer to
/// another request changes nothing, and the loop goes on waiting.
pub proof fn law_consent_is_for_one_call(
    state: LoopView,
    turn: TurnView,
    arguments: JsonView,
    id: Seq<char>,
    allowed: bool,
)
    requires
        state.wf(),
        state.phase == PhaseView::Asking(turn, arguments),
        enabled(state, Input::Permission(Some((id, allowed)))),
        state.tools.len() <= usize::MAX,
    ensures
        ({
            let t = step(state, Input::Permission(Some((id, allowed))));
            let call = turn.calls[turn.next as int];
            let own = "perm_"@ + call.id;
            &&& id != own ==> t.state == state && t.events.len() == 0 && t.action
                == (ActionView::AwaitPermission { id: own })
            &&& id == own && allowed ==> t.state.phase == PhaseView::Running(turn)
                && t.state.history == state.history && t.action is Execute
                && t.action->Execute_arguments == arguments
                && state.tools[t.action->tool as int].function.name == call.function.name
        }),
{
    lemma_first_tool(state.tools, turn.calls[turn.next as int].function.name);
}

/// Requests for different calls have different identifiers.
pub proof fn law_permission_requests_differ(a: Seq<char>, b: Seq<char>)
    ensures
        run::permission_id(a) == run::permission_id(b) ==> a == b,
        run::permission_id(a) == "perm_"@ + a,
{
    if run::permission_id(a) == run::permission_id(b) {
        let n = "perm_"@.len() as int;
        assert(a =~= run::permission_id(a).skip(n));
        assert(b =~= run::permission_id(b).skip(n));
    }
}

/// The tool that runs is the first one with the name that the model called;
/// where the user must consent, that name and the arguments are what the user
/// is asked about.
pub proof fn law_called_tool_runs(state: LoopView, turn: TurnView)
    requires
        state.wf(),
        state.phase == PhaseView::Calling(turn),
        enabled(state, Input::NextCall { cancel: false }),
        turn.next < turn.calls.len(),
        turn.calls[turn.next as int].function.name != "finish_task"@,
        state.tools.len() <= usize::MAX,
    ensures
        ({
            let t = step(state, Input::NextCall { cancel: false });
            let call = turn.calls[turn.next as int];
            let name = call.function.name;
            let runnable = has_tool(state.tools, name) && json::json_parse(
                call.function.arguments,
            ) is Ok;
            let known = state.permissions.contains_key(name);
            let arguments = json::json_parse(call.function.arguments)->Ok_0;
            &&& runnable && known && state.permissions[name] == Permission::Allow ==> {
                &&& t.action is Execute
                &&& t.action->tool < state.tools.len()
                &&& state.tools[t.action->tool as int].function.name == name
                &&& forall|i: int|
                    0 <= i < t.action->tool ==> (#[trigger] state.tools[i]).function.name != name
                &&& t.action->Execute_arguments == arguments
                &&& t.state.phase == PhaseView::Running(turn)
                &&& t.events.last() == (AgentEventView::ToolStarted { id: call.id, name })
            }
            &&& runnable && (!known || state.permissions[name] == Permission::Ask) ==> {
                &&& t.action == (ActionView::AwaitPermission { id: "perm_"@ + call.id })
                &&& t.state.phase == PhaseView::Asking(turn, arguments)
                &&& t.events.last() == (AgentEventView::PermissionRequest {
                    id: "perm_"@ + call.id,
                    tool_name: name,
                    args: arguments,
                })
                &&& t.events.contains(AgentEventView::ToolStarted { id: call.id, name })
            }
        }),
{
    let call = turn.calls[turn.next as int];
    let started = AgentEventView::ToolStarted { id: call.id, name: call.function.name };
    lemma_first_tool(state.tools, call.function.name);
    let t = step(state, Input::NextCall { cancel: false });
    if t.action is AwaitPermission {
        assert(t.events[t.events.len() - 2] == started);
    }
}

/// A call of the tool that ends the task does so with the answer that it
/// gives; where it gives none, with what the model said, or else with a note.
/// The answer is also the last message of the conversation.
pub proof fn law_finished_task_has_its_answer(state: LoopView, turn: TurnView)
    requires
        state.wf(),
        state.phase == PhaseView::Calling(turn),
        enabled(state, Input::NextCall { cancel: false }),
        turn.next < turn.calls.len(),
        turn.calls[turn.next as int].function.name == "finish_task"@,
    ensures
        ({
            let t = step(state, Input::NextCall { cancel: false });
            let parsed = json::json_parse(turn.calls[turn.next as int].function.arguments);
            let given = parsed is Ok && json::json_text(parsed->Ok_0, "final_answer"@) is Some;
            let content = t.events[0]->Done_content;
            &&& t.action is Stop
            &&& t.events.len() == 1
            &&& t.events[0] is Done
            &&& given ==> Some(content) == json::json_text(parsed->Ok_0, "final_answer"@)
            &&& !given && turn.content is Some ==> Some(content) == turn.content
            &&& !given && turn.content is None ==> content == "(task finished)"@
            &&& t.state.history.len() == state.history.len() + 1
            &&& t.state.history.last().role == Role::Assistant
            &&& t.state.history.last().content == Some(content)
            &&& t.state.history.last().tool_calls is None
        }),
{
}

/// Whatever ends a task, its last event hands out the whole conversation and
/// the tokens that were used in all of it.
pub proof fn law_end_hands_out_the_conversation(state: LoopView, input: Input)
    requires
        state.wf(),
        enabled(state, input),
        step(state, input).action is Stop,
    ensures
        ({
            let t = step(state, input);
            &&& t.events.len() == 1
            &&& match t.events[0] {
                AgentEventView::Done { content, tokens_input, tokens_output, history } => history
                    == t.state.history && tokens_input == t.state.tokens_input && tokens_output
                    == t.state.tokens_output && history.last().role == Role::Assistant
                    && history.last().content == Some(content),
                AgentEventView::Cancelled { content, tokens_input, tokens_output, history } =>
                history == t.state.history && tokens_input == t.state.tokens_input
                    && tokens_output == t.state.tokens_output && history == state.history,
                AgentEventView::NeedsContinuation {
                    content,
                    tokens_input,
                    tokens_output,
                    history,
                } => history == t.state.history && tokens_input == t.state.tokens_input
                    && tokens_output == t.state.tokens_output,
                _ => false,
            }
        }),
{
}

/// A request to stop is obeyed before the model is asked and before each tool
/// call, and while the loop waits for the model or the user.
pub proof fn law_cancelling_ends_the_task(state: LoopView, input: Input)
    requires
        state.wf(),
        enabled(state, input),
        match input {
            Input::StartTurn { cancel, now } => cancel,
            Input::NextCall { cancel } => cancel && state.phase->Calling_0.next
                < state.phase->Calling_0.calls.len(),
            Input::Cancel => true,
            _ => false,
        },
    ensures
        ({
            let t = step(state, input);
            &&& t.state.phase is Stopped
            &&& t.state.history == state.history
            &&& t.action is Stop
            &&& t.events.len() == 1
            &&& t.events[0] is Cancelled
            &&& t.events[0]->Cancelled_content == "(cancelled)"@
        }),
{
}

/// What the model answers is the next message of the conversation, with the
/// tool calls and the reasoning where it asks for tools; its text is the
/// content of the answer, or what was streamed where there is none. Its tokens
/// are added to those used so far.
pub proof fn law_answers_of_the_model_are_kept(
    state: LoopView,
    streamed: Seq<char>,
    result: ChatResultView,
)
    requires
        state.wf(),
        state.phase == (PhaseView::Streaming { text: streamed }),
        enabled(state, Input::Stream(StreamEventView::Done(result))),
    ensures
        ({
            let t = step(state, Input::Stream(StreamEventView::Done(result)));
            let noted = t.state.history.last();
            let said = if result.content is Some && result.content->0.len() > 0 {
                result.content->0
            } else {
                streamed
            };
            let works = result.tool_calls.len() > 0 && state.step <= state.max_steps && state.step
                < usize::MAX;
            &&& t.state.history.len() == state.history.len() + 1
            &&& noted.role == Role::Assistant
            &&& noted.tool_call_id is None
            &&& t.state.tokens_input == state.tokens_input + result.usage.prompt_tokens
            &&& t.state.tokens_output == state.tokens_output + result.usage.completion_tokens
            &&& t.state.step == state.step
            &&& works ==> {
                &&& noted.tool_calls == Some(result.tool_calls)
                &&& noted.reasoning_content == result.reasoning_content
                &&& noted.content == if said.len() == 0 {
                    None
                } else {
                    Some(said)
                }
                &&& t.events.len() == 0
                &&& t.action is NextCall
                &&& t.state.phase matches PhaseView::Calling(turn) && turn.calls
                    == result.tool_calls && turn.next == 0 && turn.displays.len() == 0
                    && turn.text == said && turn.content == result.content
            }
            &&& !works ==> noted.content == Some(said) && noted.tool_calls is None
                && t.events.len() == 1
        }),
{
}

/// An answer without tool calls ends the task where the model says that it has
/// come to an end; otherwise the model is asked again, as long as there are
/// turns left.
pub proof fn law_text_ends_the_task_or_goes_on(
    state: LoopView,
    streamed: Seq<char>,
    result: ChatResultView,
)
    requires
        state.wf(),
        state.phase == (PhaseView::Streaming { text: streamed }),
        enabled(state, Input::Stream(StreamEventView::Done(result))),
        result.tool_calls.len() == 0,
    ensures
        ({
            let t = step(state, Input::Stream(StreamEventView::Done(result)));
            let said = if result.content is Some && result.content->0.len() > 0 {
                result.content->0
            } else {
                streamed
            };
            let ends = result.finish_reason == Some("stop"@) || result.finish_reason == Some(
                "length"@,
            ) || result.finish_reason == Some("content_filter"@);
            let is_last = state.step > state.max_steps || state.step == usize::MAX;
            &&& t.events.len() == 1
            &&& ends ==> t.events[0] is Done && t.events[0]->Done_content == said
            &&& !ends && is_last ==> t.events[0] is NeedsContinuation
                && t.events[0]->NeedsContinuation_content == said
            &&& !ends && !is_last ==> t.action is NextTurn && t.state.phase is Ready && t.events[0]
                == (AgentEventView::TurnDone { text: said, tool_calls: Seq::empty() })
        }),
{
    if result.content is Some && result.content->0.len() == 0 && streamed.len() == 0 {
        assert(result.content->0 =~= streamed);
    }
}

/// The user sees every piece of text as it comes, and what the answer falls
/// back on are the pieces one after the other, in the order in which they came.
pub proof fn law_streamed_text_is_shown(state: LoopView, pieces: Seq<Seq<char>>)
    requires
        state.wf(),
        state.phase == (PhaseView::Streaming { text: Seq::empty() }),
    ensures
        ({
            let inputs = pieces.map_values(
                |piece: Seq<char>| Input::Stream(StreamEventView::Chunk(piece)),
            );
            let end = after(state, inputs);
            &&& possible(state, inputs)
            &&& end.phase == (PhaseView::Streaming { text: stream::run_together(pieces) })
            &&& end.history == state.history
            &&& forall|piece: Seq<char>|
                (#[trigger] step(end, Input::Stream(StreamEventView::Chunk(piece)))).events
                    == seq![AgentEventView::TextDelta(piece)]
            &&& forall|piece: Seq<char>|
                (#[trigger] step(end, Input::Stream(StreamEventView::ReasoningChunk(piece)))).events
                    == seq![AgentEventView::ReasoningDelta(piece)] && step(
                    end,
                    Input::Stream(StreamEventView::ReasoningChunk(piece)),
                ).state == end
        }),
    decreases pieces.len(),
{
    let inputs = pieces.map_values(
        |piece: Seq<char>| Input::Stream(StreamEventView::Chunk(piece)),
    );
    if pieces.len() > 0 {
        law_streamed_text_is_shown(state, pieces.drop_last());
        assert(inputs.drop_last() =~= pieces.drop_last().map_values(
            |piece: Seq<char>| Input::Stream(StreamEventView::Chunk(piece)),
        ));
        assert(inputs.last() == Input::Stream(StreamEventView::Chunk(pieces.last())));
    }
}

/// Only the start of a turn counts as a step, and it counts as one.
pub proof fn law_turns_are_counted(state: LoopView, input: Input)
    requires
        state.wf(),
        enabled(state, input),
    ensures
        step(state, input).state.step == state.step + (if input is StartTurn {
            1int
        } else {
            0int
        }),
{
}

/// A request to the model starts with the layers of the system prompt in
/// order, the reminder and the conversation; only the last one has a message
/// more. It goes to the configured model with the configured limits, and
/// offers the tools that are not denied.
pub proof fn law_requests_are_built_from_the_state(state: LoopView, now: Seq<char>)
    requires
        state.wf(),
        state.phase is Ready,
    ensures
        ({
            let t = step(state, Input::StartTurn { cancel: false, now });
            let messages = t.action->messages;
            let options = t.action->options;
            let layers = state.system_layers.len() as int;
            let is_last = state.step == state.max_steps || state.step + 1 == usize::MAX
                && state.max_steps == usize::MAX;
            &&& t.action is Stream
            &&& t.events.len() == 0
            &&& t.state.history == state.history
            &&& t.state.phase == (PhaseView::Streaming { text: Seq::empty() })
            &&& forall|i: int|
                0 <= i < layers ==> (#[trigger] messages[i]).role == Role::System
                    && messages[i].content == Some(state.system_layers[i])
            &&& messages[layers].role == Role::System
            &&& messages.len() == layers + 1 + state.history.len() + (if is_last {
                1int
            } else {
                0int
            })
            &&& options.model_id == state.options.model_id
            &&& options.temperature == state.options.temperature
            &&& options.max_tokens == state.options.max_tokens
            &&& !is_last ==> forall|def: ToolDefView| #[trigger]
                options.tools.contains(def) <==> state.tools.contains(def)
                    && agent::permission_of(state.permissions, def.function.name)
                    != Permission::Deny
            &&& is_last ==> options.tools.len() == 0 && messages.last().role == Role::Assistant
                && messages.last().content == Some(run::MAX_STEPS_PROMPT@)
        }),
{
    assert forall|def: ToolDefView| #[trigger]
        agent::advertised(state.tools, state.permissions).contains(def)
            <==> state.tools.contains(def) && agent::permission_of(
            state.permissions,
            def.function.name,
        ) != Permission::Deny by {
        laws::law_denied_tools_are_hidden(state.tools, state.permissions, def);
    }
}

/// A task begins with the conversation so far and, behind it, what the user
/// asks for; nothing has been used or counted yet.
pub proof fn law_a_task_begins_with_the_request(
    system_layers: Seq<Seq<char>>,
    user_message: Seq<char>,
    history: Seq<ChatMessageView>,
    options: ChatOptionsView,
    tools: Seq<ToolDefView>,
    permissions: Map<Seq<char>, Permission>,
    max_steps: usize,
    working_directory: Seq<char>,
)
    ensures
        ({
            let state = run::begun(
                system_layers,
                user_message,
                history,
                options,
                tools,
                permissions,
                max_steps,
                working_directory,
            );
            &&& state.wf()
            &&& state.phase is Ready
            &&& state.history.len() == history.len() + 1
            &&& state.history.take(history.len() as int) == history
            &&& state.history.last().role == Role::User
            &&& state.history.last().content == Some(user_message)
            &&& state.system_layers == system_layers
            &&& state.options == options
            &&& state.tools == tools
            &&& state.permissions == permissions
            &&& state.working_directory == working_directory
            &&& state.step == 0
            &&& state.tokens_input == 0
            &&& state.tokens_output == 0
            &&& max_steps > 0 ==> state.max_steps == max_steps
        }),
{
    assert(history.push(crate::llm::text_message(Role::User, user_message)).take(
        history.len() as int,
    ) =~= history);
}

/// The model is reminded of what the user asked for last: all of it, or where
/// that is long, its start.
pub proof fn law_the_last_request_is_repeated(
    history: &Vec<ChatMessage>,
    r: Option<String>,
    k: int,
)
    requires
        call_ensures(agent::extract_last_user_message, (history,), r),
        0 <= k < history@.len(),
        history@[k].role == Role::User,
        history@[k].content is Some,
        forall|i: int| k < i < history@.len() ==> (#[trigger] history@[i]).role != Role::User,
    ensures
        r is Some,
        history@[k].content->0@.len() <= 100 ==> r->0@ == history@[k].content->0@,
        history@[k].content->0@.len() > 100 ==> r->0@ == history@[k].content->0@.take(100)
            + "..."@,
{
    let all = ChatMessage::views(history@);
    assert forall|i: int| k < i < all.len() implies (#[trigger] all[i]).role != Role::User by {
        assert(all[i] == history@[i]@);
    }
    assert(all[k] == history@[k]@);
    lemma_last_request(all, k);
}

proof fn lemma_last_request(history: Seq<ChatMessageView>, k: int)
    requires
        0 <= k < history.len(),
        history[k].role == Role::User,
        history[k].content is Some,
        forall|i: int| k < i < history.len() ==> (#[trigger] history[i]).role != Role::User,
    ensures
        agent::last_request(history) == Some(agent::excerpt(history[k].content->0)),
    decreases history.len(),
{
    if k < history.len() - 1 {
        let before = history.drop_last();
        assert(history[history.len() - 1].role != Role::User);
        assert forall|i: int| k < i < before.len() implies (#[trigger] before[i]).role
            != Role::User by {
            assert(before[i] == history[i]);
        }
        assert(before[k] == history[k]);
        lemma_last_request(before, k);
    }
}

proof fn lemma_call_name(calls: Seq<ToolCallView>, j: int)
    requires
        0 <= j < calls.len(),
        forall|i: int| j < i < calls.len() ==> (#[trigger] calls[i]).id != calls[j].id,
    ensures
        agent::call_name(calls, calls[j].id) == Some(calls[j].function.name),
    decreases calls.len(),
{
    if j < calls.len() - 1 {
        let before = calls.drop_last();
        assert(calls[calls.len() - 1].id != calls[j].id);
        assert forall|i: int| j < i < before.len() implies (#[trigger] before[i]).id
            != before[j].id by {
            assert(before[i] == calls[i]);
        }
        lemma_call_name(before, j);
    }
}

proof fn lemma_last_turn(
    history: Seq<ChatMessageView>,
    asked: int,
    calls: Seq<ToolCallView>,
    known: Seq<ToolCallView>,
)
    requires
        0 <= asked < history.len(),
        history[asked].role == Role::Assistant,
        history[asked].tool_calls == Some(calls),
        forall|i: int| asked < i < history.len() ==> (#[trigger] history[i]).role == Role::Tool,
    ensures
        agent::last_calls(history) == calls,
        agent::trailing_results(history, known).len() == history.len() - asked - 1,
        forall|i: int|
            0 <= i < history.len() - asked - 1 ==> #[trigger] agent::trailing_results(
                history,
                known,
            )[i] == agent::result_summary(history[asked + 1 + i], known),
    decreases history.len(),
{
    if asked < history.len() - 1 {
        let before = history.drop_last();
        assert(history[history.len() - 1].role == Role::Tool);
        assert forall|i: int| asked < i < before.len() implies (#[trigger] before[i]).role
            == Role::Tool by {
            assert(before[i] == history[i]);
        }
        assert(before[asked] == history[asked]);
        lemma_last_turn(before, asked, calls, known);
        let earlier = agent::trailing_results(before, known);
        assert forall|i: int| 0 <= i < history.len() - asked - 1 implies
            #[trigger] agent::trailing_results(history, known)[i] == agent::result_summary(
            history[asked + 1 + i],
            known,
        ) by {
            if i < before.len() - asked - 1 {
                assert(agent::trailing_results(history, known)[i] == earlier[i]);
                assert(before[asked + 1 + i] == history[asked + 1 + i]);
            }
        }
    }
}

/// The model is reminded of what came of each tool call of the last turn, in
/// order: under the name of the tool that was called, as a success unless the
/// answer starts with an error, and in the words of the answer where these are
/// short.
pub proof fn law_the_last_results_are_summed_up(
    history: &Vec<ChatMessage>,
    results: Vec<ToolResultSummary>,
    asked: int,
    calls: Seq<ToolCallView>,
)
    requires
        call_ensures(agent::extract_last_turn_results, (history,), results),
        history@.len() == asked + 1 + calls.len(),
        0 <= asked,
        history@[asked].role == Role::Assistant,
        history@[asked]@.tool_calls == Some(calls),
        forall|i: int, j: int|
            0 <= i < j < calls.len() ==> (#[trigger] calls[i]).id != (#[trigger] calls[j]).id,
        forall|i: int|
            0 <= i < calls.len() ==> (#[trigger] history@[asked + 1 + i]).role == Role::Tool
                && history@[asked + 1 + i]@.tool_call_id == Some(calls[i].id)
                && history@[asked + 1 + i]@.content is Some,
    ensures
        results@.len() == calls.len(),
        forall|i: int|
            0 <= i < calls.len() ==> {
                let answer = history@[asked + 1 + i]@.content->0;
                &&& (#[trigger] results@[i])@.tool_name == calls[i].function.name
                &&& results@[i]@.success == !text::starts_with(text::trim_start(answer), "Error:"@)
                &&& text::byte_len(answer) <= 120 ==> results@[i]@.summary == answer
            },
{
    let all = ChatMessage::views(history@);
    assert(all[asked] == history@[asked]@);
    assert forall|i: int| asked < i < all.len() implies (#[trigger] all[i]).role == Role::Tool by {
        assert(all[i] == history@[asked + 1 + (i - asked - 1)]@);
    }
    lemma_last_turn(all, asked, calls, calls);
    let told = ToolResultSummary::views(results@);
    assert(told.len() == results@.len());
    assert forall|i: int| 0 <= i < calls.len() implies {
        let answer = history@[asked + 1 + i]@.content->0;
        &&& (#[trigger] results@[i])@.tool_name == calls[i].function.name
        &&& results@[i]@.success == !text::starts_with(text::trim_start(answer), "Error:"@)
        &&& text::byte_len(answer) <= 120 ==> results@[i]@.summary == answer
    } by {
        assert(told[i] == results@[i]@);
        assert(all[asked + 1 + i] == history@[asked + 1 + i]@);
        lemma_call_name(calls, i);
    }
}

/// A stream that ends without an answer leaves the task unfinished, with what
/// was said so far; one that fails ends it with the error.
pub proof fn law_broken_streams_end_the_task(state: LoopView, said: Seq<char>, error: Seq<char>)
    requires
        state.wf(),
        state.phase == (PhaseView::Streaming { text: said }),
    ensures
        ({
            let closed = step(state, Input::StreamClosed);
            let failed = step(state, Input::StreamFailed { error });
            &&& closed.state.phase is Stopped
            &&& closed.state.history == state.history
            &&& closed.events.len() == 1
            &&& closed.events[0] is NeedsContinuation
            &&& closed.events[0]->NeedsContinuation_content == said
            &&& failed.state.phase is Stopped
            &&& failed.state.history == state.history
            &&& failed.events.len() == 0
            &&& failed.action == (ActionView::Abort { error })
        }),
{
}

/// Where the model still asks for tools in the last turn, none of them runs: the
/// task is left unfinished, with what the model said beside them.
pub proof fn law_no_tool_runs_in_the_last_turn(
    state: LoopView,
    streamed: Seq<char>,
    result: ChatResultView,
)
    requires
        state.wf(),
        state.phase == (PhaseView::Streaming { text: streamed }),
        enabled(state, Input::Stream(StreamEventView::Done(result))),
        result.tool_calls.len() > 0,
        state.step > state.max_steps,
    ensures
        ({
            let t = step(state, Input::Stream(StreamEventView::Done(result)));
            let said = if result.content is Some && result.content->0.len() > 0 {
                result.content->0
            } else {
                streamed
            };
            &&& t.action is Stop
            &&& t.events.len() == 1
            &&& t.events[0] is NeedsContinuation
            &&& said.len() > 0 ==> t.events[0]->NeedsContinuation_content == said
            &&& said.len() == 0 ==> t.events[0]->NeedsContinuation_content
                == "(max steps reached)"@
            &&& t.state.history.last().tool_calls is None
        }),
{
}

/// When the model loads a skill, the user is told which one before the tool
/// starts; a call of another tool starts with that tool.
pub proof fn law_selected_skills_are_told(state: LoopView, turn: TurnView)
    requires
        state.wf(),
        state.phase == PhaseView::Calling(turn),
        enabled(state, Input::NextCall { cancel: false }),
        turn.next < turn.calls.len(),
        turn.calls[turn.next as int].function.name != "finish_task"@,
    ensures
        ({
            let t = step(state, Input::NextCall { cancel: false });
            let call = turn.calls[turn.next as int];
            let parsed = json::json_parse(call.function.arguments);
            let started = AgentEventView::ToolStarted { id: call.id, name: call.function.name };
            let chosen = call.function.name == "use_skill"@ && parsed is Ok && json::json_text(
                parsed->Ok_0,
                "skill_name"@,
            ) is Some;
            &&& chosen ==> t.events.len() >= 3 && t.events[0] == (AgentEventView::SkillSelected {
                name: json::json_text(parsed->Ok_0, "skill_name"@)->0,
            }) && t.events[2] == started
            &&& !chosen ==> t.events.len() >= 1 && t.events[0] == started
        }),
{
}

/// When all calls of a turn are done, the user is told what the model said in it
/// and what came of the calls, and the next turn begins.
pub proof fn law_turns_end_with_a_report(state: LoopView, turn: TurnView, cancel: bool)
    requires
        state.wf(),
        state.phase == PhaseView::Calling(turn),
        enabled(state, Input::NextCall { cancel }),
        turn.next == turn.calls.len(),
    ensures
        ({
            let t = step(state, Input::NextCall { cancel });
            &&& t.state.phase is Ready
            &&& t.state.history == state.history
            &&& t.action is NextTurn
            &&& t.events == seq![
                AgentEventView::TurnDone { text: turn.text, tool_calls: turn.displays },
            ]
        }),
{
}

/// The tools that are not denied are offered in their order.
pub proof fn law_tools_are_offered_in_order(
    tools: Seq<ToolDefView>,
    permissions: Map<Seq<char>, Permission>,
)
    ensures
        agent::advertised(tools, permissions) == tools.filter(
            |d: ToolDefView|
                !(permissions.contains_key(d.function.name) && permissions[d.function.name]
                    == Permission::Deny),
        ),
    decreases tools.len(),
{
    reveal(Seq::filter);
    if tools.len() > 0 {
        law_tools_are_offered_in_order(tools.drop_last(), permissions);
    } else {
        assert(agent::advertised(tools, permissions) =~= tools);
    }
}

/// Each request reminds the model of the time, of where it works, of the turn
/// that begins and of how many there are, of its tools, of what came of the last
/// calls and of what the user asked for.
pub proof fn law_requests_remind_the_model(state: LoopView, now: Seq<char>)
    requires
        state.wf(),
        state.phase is Ready,
    ensures
        ({
            let messages = step(
                state,
                Input::StartTurn { cancel: false, now },
            ).action->messages;
            let told = messages[state.system_layers.len() as int].content;
            let names = prompt::tool_names(agent::advertised(state.tools, state.permissions));
            let results = agent::last_turn_results(state.history);
            let request = agent::last_request(state.history);
            &&& told is Some
            &&& text::starts_with(
                told->0,
                "<system-reminder>\nCurrent time: "@ + now + "\nWorking directory: "@
                    + state.working_directory + "\nStep: Turn "@ + text::decimal(
                    (state.step + 1) as nat,
                ) + " of "@ + text::decimal(state.max_steps as nat) + "\n\n"@
                    + prompt::tools_section(names) + prompt::results_section(results)
                    + prompt::request_section(request),
            )
        }),
{
    let names = prompt::tool_names(agent::advertised(state.tools, state.permissions));
    let results = agent::last_turn_results(state.history);
    let request = agent::last_request(state.history);
    let messages = step(state, Input::StartTurn { cancel: false, now }).action->messages;
    let told = messages[state.system_layers.len() as int].content->0;
    let head = "<system-reminder>\nCurrent time: "@ + now + "\nWorking directory: "@
        + state.working_directory + "\nStep: Turn "@ + text::decimal((state.step + 1) as nat)
        + " of "@ + text::decimal(state.max_steps as nat) + "\n\n"@ + prompt::tools_section(names)
        + prompt::results_section(results) + prompt::request_section(request);
    let end = "<reminder>"@ + prompt::guidance(state.step + 1)
        + "</reminder>\n</system-reminder>"@;
    assert(told =~= head + end);
    assert(told.take(head.len() as int) =~= head);
}

} // verus!
