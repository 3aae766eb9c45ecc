//! What holds of the loop as it runs: what its steps do with what they are
//! handed, and what they hand out.

use super::exchange;
use super::laws;
use super::laws::Input;
use super::run::{Action, AgentLoop, PhaseView, Step, TurnView};
use super::AgentEvent;
use crate::json::Json;
use crate::llm::{
    ChatMessage, ChatResult, RollbackEntry, Role, StreamEvent, StreamEventView,
    ToolExecutionResult,
};
use crate::protocol::FileChange;
use crate::text;
use vstd::prelude::*;

verus! {

/// What a tool put out, or its error, is what the model is told for the call
/// that was running, and what is reported of it.
pub proof fn law_finished_tools_are_answered(
    agent: &mut AgentLoop,
    turn: TurnView,
    outcome: Result<ToolExecutionResult, String>,
    r: Step,
)
    requires
        old(agent)@.wf(),
        old(agent)@.phase == PhaseView::Running(turn),
        turn.calls.len() <= usize::MAX,
        call_ensures(AgentLoop::tool_finished, (agent, outcome), r),
    ensures
        ({
            let call = turn.calls[turn.next as int];
            let history = final(agent)@.history;
            let told = history.last();
            &&& history.len() == old(agent)@.history.len() + 1
            &&& history.take(old(agent)@.history.len() as int) == old(agent)@.history
            &&& told.role == Role::Tool
            &&& told.tool_call_id == Some(call.id)
            &&& told.content == match outcome {
                Ok(output) => Some(output.output@),
                Err(error) => Some("Error: "@ + error@),
            }
            &&& r.events@.len() == 1
            &&& match outcome {
                Ok(output) => r.events@[0] matches AgentEvent::ToolCompleted {
                    id,
                    name,
                    result,
                    changes,
                    rollback_entries,
                } && id@ == call.id && name@ == call.function.name && result@ == output.output@
                    && FileChange::views(changes@) == FileChange::views(output.changes@)
                    && RollbackEntry::views(rollback_entries@) == RollbackEntry::views(
                    output.rollback_entries@,
                ),
                Err(why) => r.events@[0] matches AgentEvent::ToolFailed { id, error } && id@
                    == call.id && error@ == why@,
            }
            &&& r.action is NextCall
        }),
{
    assert(AgentEvent::views(r.events@).len() == r.events@.len());
    match outcome {
        Ok(output) => exchange::law_tool_output_reaches_the_model(old(agent)@, turn, output@),
        Err(error) => exchange::law_tool_errors_reach_the_model(old(agent)@, turn, error@),
    }
    assert(AgentEvent::views(r.events@)[0] == r.events@[0]@);
    assert(final(agent)@.history.take(old(agent)@.history.len() as int) =~= old(
        agent,
    )@.history);
}

/// The pieces of an answer are shown as they come.
pub proof fn law_pieces_are_shown(agent: &mut AgentLoop, event: StreamEvent, r: Step)
    requires
        old(agent)@.wf(),
        old(agent)@.phase is Streaming,
        !(event is Done),
        call_ensures(AgentLoop::stream_event, (agent, event), r),
    ensures
        r.events@.len() == 1,
        match event {
            StreamEvent::Chunk(piece) => (r.events@[0] matches AgentEvent::TextDelta(shown)
                && shown@ == piece@) && final(agent)@.phase->text == old(agent)@.phase->text
                + piece@,
            StreamEvent::ReasoningChunk(piece) => r.events@[0] matches AgentEvent::ReasoningDelta(
                shown,
            ) && shown@ == piece@,
            _ => true,
        },
        r.action is Receive,
        final(agent)@.history == old(agent)@.history,
{
    assert(AgentEvent::views(r.events@).len() == r.events@.len());
    assert(AgentEvent::views(r.events@)[0] == r.events@[0]@);
}

/// The answer of the model is the next message of the conversation, with the
/// tools that it asks for and the tokens that it took.
pub proof fn law_answers_are_kept(
    agent: &mut AgentLoop,
    streamed: Seq<char>,
    result: ChatResult,
    r: Step,
)
    requires
        old(agent)@.wf(),
        old(agent)@.phase == (PhaseView::Streaming { text: streamed }),
        old(agent)@.tokens_input + result.usage.prompt_tokens <= u64::MAX,
        old(agent)@.tokens_output + result.usage.completion_tokens <= u64::MAX,
        result.tool_calls@.len() <= usize::MAX,
        call_ensures(AgentLoop::stream_event, (agent, StreamEvent::Done(result)), r),
    ensures
        ({
            let said = if result.content is Some && result.content->0@.len() > 0 {
                result.content->0@
            } else {
                streamed
            };
            let next = final(agent)@;
            let noted = next.history.last();
            &&& next.history.len() == old(agent)@.history.len() + 1
            &&& noted.role == Role::Assistant
            &&& noted.content is Some ==> noted.content->0 == said
            &&& noted.content is None ==> said.len() == 0
            &&& result.tool_calls@.len() == 0 ==> noted.content is Some && noted.tool_calls is None
            &&& next.tokens_input == old(agent)@.tokens_input + result.usage.prompt_tokens
            &&& next.tokens_output == old(agent)@.tokens_output + result.usage.completion_tokens
            &&& noted.tool_calls matches Some(calls) ==> calls == crate::llm::ToolCall::views(
                result.tool_calls@,
            )
            &&& result.tool_calls@.len() > 0 && old(agent)@.step <= old(agent)@.max_steps && old(
                agent,
            )@.step < usize::MAX ==> noted.tool_calls is Some && noted.reasoning_content
                == text::opt_view(result.reasoning_content)
            &&& result.tool_calls@.len() == 0 && result.finish_reason is Some
                && result.finish_reason->0@ == "stop"@ ==> r.events@.len() == 1 && (
            r.events@[0] matches AgentEvent::Done {
                content,
                tokens_input,
                tokens_output,
                history,
            } && content@ == said && tokens_input == next.tokens_input && tokens_output
                == next.tokens_output && ChatMessage::views(history@) == next.history)
        }),
{
    assert(AgentEvent::views(r.events@).len() == r.events@.len());
    assert(result@.tool_calls.len() == result.tool_calls@.len());
    if result.content is Some && result.content->0@.len() == 0 && streamed.len() == 0 {
        assert(result.content->0@ =~= streamed);
    }
    exchange::law_answers_of_the_model_are_kept(old(agent)@, streamed, result@);
    if result.tool_calls@.len() == 0 {
        exchange::law_text_ends_the_task_or_goes_on(old(agent)@, streamed, result@);
        laws::law_end_is_reported_once(
            old(agent)@,
            Input::Stream(StreamEventView::Done(result@)),
        );
    }
    if r.events@.len() > 0 {
        assert(AgentEvent::views(r.events@)[0] == r.events@[0]@);
    }
}

/// A request to the model starts with the system prompt and holds the whole
/// conversation in order; it goes to the configured model.
pub proof fn law_the_model_is_sent_the_conversation(agent: &mut AgentLoop, now: &str, r: Step)
    requires
        old(agent)@.wf(),
        old(agent)@.phase is Ready,
        call_ensures(AgentLoop::start_turn_at, (agent, false, now), r),
    ensures
        r.events@.len() == 0,
        r.action matches Action::Stream { messages, options } && ({
            let layers = old(agent)@.system_layers;
            let history = old(agent)@.history;
            &&& messages@.len() >= layers.len() + 1 + history.len()
            &&& forall|i: int|
                0 <= i < layers.len() ==> (#[trigger] messages@[i]).role == Role::System
                    && messages@[i]@.content == Some(layers[i])
            &&& forall|i: int|
                layers.len() < i <= layers.len() + history.len() ==> (#[trigger] messages@[i])@
                    == history[i - layers.len() - 1]
            &&& options.model_id@ == old(agent)@.options.model_id
            &&& options.temperature == old(agent)@.options.temperature
            &&& options.max_tokens == old(agent)@.options.max_tokens
        }),
        final(agent)@.history == old(agent)@.history,
        final(agent)@.step == old(agent)@.step + 1,
{
    let before = old(agent)@;
    exchange::law_requests_are_built_from_the_state(before, now@);
    laws::law_request_holds_conversation(before, now@);
    exchange::law_turns_are_counted(before, Input::StartTurn { cancel: false, now: now@ });
    assert(AgentEvent::views(r.events@).len() == r.events@.len());
    if let Action::Stream { messages, options } = r.action {
        let sent = ChatMessage::views(messages@);
        let layers = before.system_layers;
        let history = before.history;
        let start = (layers.len() + 1) as int;
        assert(sent.len() == messages@.len());
        assert forall|i: int| 0 <= i < layers.len() implies (#[trigger] messages@[i]).role
            == Role::System && messages@[i]@.content == Some(layers[i]) by {
            assert(sent[i] == messages@[i]@);
        }
        assert forall|i: int| layers.len() < i <= layers.len() + history.len() implies (
        #[trigger] messages@[i])@ == history[i - layers.len() - 1] by {
            assert(sent[i] == messages@[i]@);
            assert(sent.subrange(start, start + history.len())[i - start] == sent[i]);
        }
    }
}

/// The user's answer counts for the call that it is about: consent lets it run
/// with the arguments that were shown, a refusal is told to the model.
pub proof fn law_the_user_s_answer_counts(
    agent: &mut AgentLoop,
    turn: TurnView,
    shown: crate::json::JsonView,
    id: String,
    allowed: bool,
    r: Step,
)
    requires
        old(agent)@.wf(),
        old(agent)@.phase == PhaseView::Asking(turn, shown),
        turn.calls.len() <= usize::MAX,
        old(agent)@.tools.len() <= usize::MAX,
        id@ == "perm_"@ + turn.calls[turn.next as int].id,
        call_ensures(AgentLoop::permission_reply, (agent, Some((id, allowed))), r),
    ensures
        ({
            let call = turn.calls[turn.next as int];
            let tools = old(agent)@.tools;
            let history = final(agent)@.history;
            &&& allowed ==> (r.action matches Action::Execute { tool, arguments } && tool
                < tools.len() && tools[tool as int].function.name == call.function.name
                && arguments@ == shown) && history == old(agent)@.history
            &&& !allowed ==> !(r.action is Execute) && history.len() == old(agent)@.history.len()
                + 1 && history.last().role == Role::Tool && history.last().tool_call_id == Some(
                call.id,
            ) && history.last().content == Some(
                "Error: "@ + ("Permission denied by user for tool '"@ + call.function.name + "'"@),
            )
        }),
{
    if allowed {
        exchange::law_consent_is_for_one_call(old(agent)@, turn, shown, id@, true);
        laws::law_tools_run_with_permission(
            old(agent)@,
            Input::Permission(Some((id@, true))),
        );
    } else {
        exchange::law_refusals_of_the_user_are_explained(
            old(agent)@,
            turn,
            shown,
            Some((id@, false)),
        );
    }
}

/// A tool that is allowed runs with the arguments that the model gave.
pub proof fn law_allowed_tools_run(
    agent: &mut AgentLoop,
    turn: TurnView,
    parsed: Result<Json, String>,
    r: Step,
)
    requires
        old(agent)@.wf(),
        old(agent)@.phase == PhaseView::Calling(turn),
        turn.next < turn.calls.len() <= usize::MAX,
        old(agent)@.tools.len() <= usize::MAX,
        turn.calls[turn.next as int].function.name != "finish_task"@,
        exchange::has_tool(old(agent)@.tools, turn.calls[turn.next as int].function.name),
        old(agent)@.permissions.contains_key(turn.calls[turn.next as int].function.name),
        old(agent)@.permissions[turn.calls[turn.next as int].function.name]
            == crate::config::Permission::Allow,
        call_ensures(AgentLoop::next_parsed_call, (agent, false, parsed), r),
    ensures
        ({
            let call = turn.calls[turn.next as int];
            let tools = old(agent)@.tools;
            &&& parsed matches Ok(given) ==> (r.action matches Action::Execute {
                tool,
                arguments,
            } && tool < tools.len() && tools[tool as int].function.name == call.function.name
                && arguments@ == given@) && final(agent)@.history == old(agent)@.history
            &&& parsed matches Err(e) ==> !(r.action is Execute)
                && final(agent)@.history.last().content == Some(
                "Error: "@ + ("Failed to parse arguments: "@ + e@),
            )
        }),
{
    exchange::lemma_first_tool(
        old(agent)@.tools,
        turn.calls[turn.next as int].function.name,
    );
}

} // verus!
