//! What holds of runs and of the clients that are attached to them.

use super::{
    allowed_for_good, asked_for, is_over, kept_after, replayed, status_of, to_save, told,
    until_end, ActiveRunView, ClientAction, ClientActionView, Replay, RunProgress, RunStatus,
    RuntimeSessionStateView, ServerState,
};
use crate::agent::{AgentEvent, AgentEventView};
use crate::llm::ChatMessage;
use crate::protocol::{ClientEvent, ClientEventView, ServerEvent, ServerEventView};
use vstd::prelude::*;

verus! {

/// What an agent reports of its work reaches the clients as it is: texts, the
/// results and errors of tools with the identifiers of their calls, and the
/// requests for consent with the tools and their arguments.
pub proof fn law_reports_reach_the_clients(event: AgentEventView)
    ensures
        match event {
            AgentEventView::TextDelta(text) => told(event) matches ServerEventView::TextDelta {
                data,
            } && data == text,
            AgentEventView::ReasoningDelta(text) => told(
                event,
            ) matches ServerEventView::ReasoningDelta { data } && data == text,
            AgentEventView::ToolStarted { id: call, name: tool } => told(
                event,
            ) matches ServerEventView::ToolStarted { id, name } && id == call && name == tool,
            AgentEventView::ToolCompleted { id: call, result: output, changes: made, .. } => told(
                event,
            ) matches ServerEventView::ToolCompleted { id, result, changes } && id == call
                && result == output && changes == made,
            AgentEventView::ToolFailed { id: call, error: why } => told(
                event,
            ) matches ServerEventView::ToolFailed { id, error } && id == call && error == why,
            AgentEventView::TurnDone { text: said, tool_calls: calls } => told(
                event,
            ) matches ServerEventView::TurnDone { text, tool_calls } && text == said && tool_calls
                == calls,
            AgentEventView::PermissionRequest { id: request, tool_name: tool, args: given } => told(
                event,
            ) matches ServerEventView::PermissionRequest { id, tool_name, args } && id == request
                && tool_name == tool && args == given,
            AgentEventView::SkillsLoaded { names: skills } => told(
                event,
            ) matches ServerEventView::SkillsLoaded { names } && names == skills,
            AgentEventView::SkillSelected { name: skill } => told(
                event,
            ) matches ServerEventView::SkillSelected { name } && name == skill,
            AgentEventView::SubagentStarted { id: call, name: agent } => told(
                event,
            ) matches ServerEventView::SubagentStarted { id, name } && id == call && name == agent,
            AgentEventView::SubagentTextDelta { id: call, data: text } => told(
                event,
            ) matches ServerEventView::SubagentTextDelta { id, data } && id == call && data == text,
            AgentEventView::SubagentReasoningDelta { id: call, data: text } => told(
                event,
            ) matches ServerEventView::SubagentReasoningDelta { id, data } && id == call && data
                == text,
            AgentEventView::SubagentToolStarted { id: call, sub_id: sub, tool_name: tool } => told(
                event,
            ) matches ServerEventView::SubagentToolStarted { id, sub_id, tool_name } && id == call
                && sub_id == sub && tool_name == tool,
            AgentEventView::SubagentToolCompleted {
                id: call,
                sub_id: sub,
                result: output,
                changes: made,
            } => told(event) matches ServerEventView::SubagentToolCompleted {
                id,
                sub_id,
                result,
                changes,
            } && id == call && sub_id == sub && result == output && changes == made,
            AgentEventView::SubagentToolFailed { id: call, sub_id: sub, error: why } => told(
                event,
            ) matches ServerEventView::SubagentToolFailed { id, sub_id, error } && id == call
                && sub_id == sub && error == why,
            AgentEventView::SubagentDone { id: call, content: text } => told(
                event,
            ) matches ServerEventView::SubagentDone { id, content } && id == call && content
                == text,
            AgentEventView::Done { content: text, tokens_input: i, tokens_output: o, .. } => told(
                event,
            ) matches ServerEventView::Done { content, tokens_input, tokens_output } && content
                == text && tokens_input == i && tokens_output == o,
            AgentEventView::Cancelled { content: text, tokens_input: i, tokens_output: o, .. } =>
            told(event) matches ServerEventView::Cancelled {
                content,
                tokens_input,
                tokens_output,
            } && content == text && tokens_input == i && tokens_output == o,
            AgentEventView::NeedsContinuation {
                content: text,
                tokens_input: i,
                tokens_output: o,
                ..
            } => told(event) matches ServerEventView::NeedsContinuation {
                content,
                tokens_input,
                tokens_output,
            } && content == text && tokens_input == i && tokens_output == o,
        },
{
}

/// A run is over exactly when its agent has reported an end, or failed; at an
/// end that the agent reports the conversation is saved as it stands, with the
/// tokens that were used.
pub proof fn law_finished_runs_are_saved(event: AgentEventView, message: Seq<char>)
    ensures
        status_of(told(event)) is Some <==> event is Done || event is Cancelled || event
            is NeedsContinuation,
        event is Done ==> status_of(told(event)) == Some(RunStatus::Done),
        event is Cancelled ==> status_of(told(event)) == Some(RunStatus::Cancelled),
        event is NeedsContinuation ==> status_of(told(event)) == Some(
            RunStatus::NeedsContinuation,
        ),
        status_of(ServerEventView::Error { message }) == Some(RunStatus::Failed),
        to_save(event) is Some <==> status_of(told(event)) is Some,
        match event {
            AgentEventView::Done { tokens_input, tokens_output, history, .. } => to_save(
                event,
            )->0.history == history && to_save(event)->0.tokens_input == tokens_input && to_save(
                event,
            )->0.tokens_output == tokens_output,
            AgentEventView::Cancelled { tokens_input, tokens_output, history, .. } => to_save(
                event,
            )->0.history == history && to_save(event)->0.tokens_input == tokens_input && to_save(
                event,
            )->0.tokens_output == tokens_output,
            AgentEventView::NeedsContinuation {
                tokens_input,
                tokens_output,
                history,
                ..
            } => to_save(event)->0.history == history && to_save(event)->0.tokens_input
                == tokens_input && to_save(event)->0.tokens_output == tokens_output,
            _ => true,
        },
{
}

/// The events of a run in the order in which they were reported.
pub open spec fn with_events(run: ActiveRunView, events: Seq<ServerEventView>) -> ActiveRunView
    decreases events.len(),
{
    if events.len() == 0 {
        run
    } else {
        with_events(run, events.drop_last()).with_event(events.last())
    }
}

/// A run remembers everything that is reported of it, in the order in which it
/// was reported, and stays with the client that started it.
pub proof fn law_runs_remember_what_is_reported(key: Seq<char>, events: Seq<ServerEventView>)
    ensures
        with_events(ActiveRunView::begun(key), events).events == events,
        with_events(ActiveRunView::begun(key), events).runtime_session_key == key,
    decreases events.len(),
{
    if events.len() > 0 {
        law_runs_remember_what_is_reported(key, events.drop_last());
        assert(events.drop_last().push(events.last()) =~= events);
    }
}

/// The index of the first event that ends a run, or the number of events.
pub open spec fn first_end(events: Seq<ServerEventView>, n: int) -> bool {
    &&& 0 <= n <= events.len()
    &&& n < events.len() ==> status_of(events[n]) is Some
    &&& forall|i: int| 0 <= i < n ==> status_of(#[trigger] events[i]) is None
}

proof fn lemma_until_end(events: Seq<ServerEventView>, n: int)
    requires
        first_end(events, n),
    ensures
        is_over(events) == (n < events.len()),
        n < events.len() ==> until_end(events) == events.take(n + 1),
        n == events.len() ==> until_end(events) == events,
    decreases events.len(),
{
    if events.len() > 0 {
        if n > 0 {
            assert(status_of(events[0]) is None);
            let rest = events.skip(1);
            assert forall|i: int| 0 <= i < n - 1 implies status_of(#[trigger] rest[i]) is None by {
                assert(rest[i] == events[i + 1]);
            }
            if n < events.len() {
                assert(rest[n - 1] == events[n]);
            }
            lemma_until_end(rest, n - 1);
            assert(seq![events[0]] + rest =~= events);
            if n < events.len() {
                assert(seq![events[0]] + rest.take(n) =~= events.take(n + 1));
            }
        } else {
            assert(seq![events[0]] =~= events.take(1));
        }
    }
    if n < events.len() {
        assert(status_of(events[n]) is Some);
    } else {
        assert(!is_over(events));
    }
}

/// A client that attaches to a run gets everything that was reported of it, in
/// order: of a run that is over, up to its end and nothing else; of one that
/// goes on, all of it and then that it is attached.
pub proof fn law_attached_clients_see_the_whole_run(
    state: &ServerState,
    run_id: &str,
    r: Option<Replay>,
    n: int,
)
    requires
        call_ensures(ServerState::attach, (state, run_id), r),
        state.run(run_id@) is Some,
        first_end(state.run(run_id@)->0.events, n),
    ensures
        ({
            let run = state.run(run_id@)->0;
            &&& r is Some
            &&& r->0.runtime_session_key@ == run.runtime_session_key
            &&& r->0.ended == (n < run.events.len())
            &&& forall|i: int|
                0 <= i < run.events.len() && i <= n ==> i < r->0.events@.len() && (
                #[trigger] r->0.events@[i])@ == run.events[i]
            &&& r->0.ended ==> r->0.events@.len() == n + 1
            &&& !r->0.ended ==> r->0.events@.len() == run.events.len() + 1
                && r->0.events@.last()@ == (ServerEventView::RunAttached { run_id: run_id@ })
        }),
{
    let run = state.run(run_id@)->0;
    lemma_until_end(run.events, n);
    let shown = crate::protocol::ServerEvent::views(r->0.events@);
    assert(shown == replayed(run_id@, run.events));
    assert(shown.len() == r->0.events@.len());
    assert forall|i: int| 0 <= i < run.events.len() && i <= n implies i < r->0.events@.len() && (
    #[trigger] r->0.events@[i])@ == run.events[i] by {
        assert(shown[i] == run.events[i]);
        assert(shown[i] == r->0.events@[i]@);
    }
    if !r->0.ended {
        assert(shown.last() == r->0.events@.last()@);
    }
}

/// Where the user allows a tool for good, the tool is the one that the request
/// was about, whatever was reported since; an answer that refuses, or is for
/// this once, allows nothing for good.
pub proof fn law_consent_for_good_is_for_the_tool_asked_about(
    run: ActiveRunView,
    id: Seq<char>,
    tool_name: Seq<char>,
    args: crate::json::JsonView,
    since: Seq<ServerEventView>,
    allowed: bool,
    remember: bool,
)
    requires
        forall|i: int|
            0 <= i < since.len() ==> !((#[trigger] since[i]) matches ServerEventView::PermissionRequest {
                id: other,
                ..
            } && other == id),
    ensures
        ({
            let asked = with_events(
                run.with_event(ServerEventView::PermissionRequest { id, tool_name, args }),
                since,
            );
            let answer = ClientEventView::PermissionResponse { id, allowed, remember };
            allowed_for_good(Some(asked), answer) == if allowed && remember {
                Some(tool_name)
            } else {
                None
            }
        }),
    decreases since.len(),
{
    if since.len() > 0 {
        let before = since.drop_last();
        assert forall|i: int| 0 <= i < before.len() implies !((
        #[trigger] before[i]) matches ServerEventView::PermissionRequest { id: other, .. } && other
            == id) by {
            assert(before[i] == since[i]);
        }
        law_consent_for_good_is_for_the_tool_asked_about(
            run,
            id,
            tool_name,
            args,
            before,
            true,
            true,
        );
        assert(since[since.len() - 1] == since.last());
    }
}

/// What the user answers is passed on to the run as it is.
pub proof fn law_answers_reach_the_run(
    run: ActiveRunView,
    key: Seq<char>,
    id: Seq<char>,
    allowed: bool,
    remember: bool,
)
    ensures
        asked_for(
            Some(run),
            key,
            ClientEventView::PermissionResponse { id, allowed, remember },
        ) matches ClientActionView::AnswerPermission { id: request, allowed: answer } && request
            == id && answer == allowed,
        asked_for(Some(run), key, ClientEventView::Cancel) is CancelRun,
        asked_for(
            None,
            key,
            ClientEventView::PermissionResponse { id, allowed, remember },
        ) is Nothing,
        asked_for(None, key, ClientEventView::Cancel) is Nothing,
{
}

/// A tool that is allowed for good is remembered beside those that were
/// allowed before, and no other tool is; what can be rolled back stays.
pub proof fn law_allowed_tools_are_remembered(
    session: RuntimeSessionStateView,
    tool: Seq<char>,
    other: Seq<char>,
)
    ensures
        session.with_allowed(tool).remember_allow_tools.contains(other) <==> other == tool
            || session.remember_allow_tools.contains(other),
        session.with_allowed(tool).rollback_journal == session.rollback_journal,
        session.with_allowed(tool).with_allowed(tool) == session.with_allowed(tool),
{
    let before = session.remember_allow_tools;
    let after = session.with_allowed(tool).remember_allow_tools;
    if !before.contains(tool) {
        assert(after[before.len() as int] == tool);
        if before.contains(other) {
            let i = choose|i: int| 0 <= i < before.len() && before[i] == other;
            assert(after[i] == other);
        }
        if after.contains(other) && other != tool {
            let i = choose|i: int| 0 <= i < after.len() && after[i] == other;
            assert(before[i] == other);
        }
    }
}

/// What a tool does to files leaves what the user allowed for good.
pub proof fn law_changes_leave_what_is_allowed(
    session: RuntimeSessionStateView,
    event: Result<AgentEventView, Seq<char>>,
)
    ensures
        kept_after(session, event).remember_allow_tools == session.remember_allow_tools,
        kept_after(session, event).undone().remember_allow_tools == session.remember_allow_tools,
{
}

/// When the agent of a run ends its task, the clients are told the answer and
/// the tokens, the run is over, and its conversation is saved as it stands.
pub proof fn law_the_end_of_a_run_is_told_and_saved(
    state: &mut ServerState,
    run_id: &str,
    key: &str,
    event: AgentEvent,
    p: RunProgress,
)
    requires
        event is Done,
        call_ensures(ServerState::run_event, (state, run_id, key, Ok(event)), p),
    ensures
        p.event matches ServerEvent::Done { content, tokens_input, tokens_output } && content@
            == event->Done_content@ && tokens_input == event->Done_tokens_input && tokens_output
            == event->Done_tokens_output,
        p.save is Some,
        ChatMessage::views(p.save->0.history@) == ChatMessage::views(event->Done_history@),
        p.save->0.tokens_input == event->Done_tokens_input,
        p.save->0.tokens_output == event->Done_tokens_output,
        p.finished,
        final(state).session(key@) == old(state).session(key@),
{
}

/// What the agent of a run reports is remembered with the run, behind what was
/// reported before, and the attached clients are told the same; an agent that
/// fails ends its run with the error.
pub proof fn law_reports_are_remembered_and_told(
    state: &mut ServerState,
    run_id: &str,
    key: &str,
    event: Result<AgentEvent, String>,
    p: RunProgress,
)
    requires
        old(state).run(run_id@) is Some,
        call_ensures(ServerState::run_event, (state, run_id, key, event), p),
    ensures
        final(state).run(run_id@) is Some,
        final(state).run(run_id@)->0.events == old(state).run(run_id@)->0.events.push(p.event@),
        event matches Err(e) ==> p.finished && p.save is None && (
        p.event matches ServerEvent::Error { message } && message@ == e@),
        event matches Ok(AgentEvent::TextDelta(piece)) ==> !p.finished && (
        p.event matches ServerEvent::TextDelta { data } && data@ == piece@),
        event matches Ok(AgentEvent::ToolCompleted { id: call, result: output, .. })
            ==> !p.finished && (p.event matches ServerEvent::ToolCompleted { id, result, .. } && id@
            == call@ && result@ == output@),
        event matches Ok(AgentEvent::ToolFailed { id: call, error: why }) ==> !p.finished && (
        p.event matches ServerEvent::ToolFailed { id, error } && id@ == call@ && error@ == why@),
        forall|other: Seq<char>|
            other != run_id@ ==> #[trigger] final(state).run(other) == old(state).run(other),
{
}

/// A run that starts has reported that it started, and nothing else.
pub proof fn law_runs_start_with_their_start(state: &mut ServerState, run_id: &str, key: &str)
    requires
        call_ensures(ServerState::start_run, (state, run_id, key), ()),
    ensures
        final(state).run(run_id@) is Some,
        final(state).run(run_id@)->0.runtime_session_key == key@,
        final(state).run(run_id@)->0.events == seq![
            ServerEventView::RunStarted { run_id: run_id@ },
        ],
        final(state).sessions == old(state).sessions,
{
    assert(final(state).run(run_id@)->0.events =~= seq![
        ServerEventView::RunStarted { run_id: run_id@ },
    ]);
}

/// Where the user consents for good to what a run asked for, the tool that was
/// asked about is remembered for the client, and the run gets the answer.
pub proof fn law_consent_for_good_is_remembered(
    state: &mut ServerState,
    run_id: &str,
    key: &str,
    id: String,
    allowed: bool,
    remember: bool,
    a: ClientAction,
)
    requires
        old(state).run(run_id@) is Some,
        old(state).run(run_id@)->0.pending_permission_tools.contains_key(id@),
        call_ensures(
            ServerState::client_event,
            (state, run_id, key, ClientEvent::PermissionResponse { id, allowed, remember }),
            a,
        ),
    ensures
        a matches ClientAction::AnswerPermission { id: request, allowed: answer } && request@
            == id@ && answer == allowed,
        ({
            let tool = old(state).run(run_id@)->0.pending_permission_tools[id@];
            let before = old(state).session(key@).remember_allow_tools;
            let after = final(state).session(key@).remember_allow_tools;
            &&& allowed && remember ==> after.contains(tool)
            &&& !(allowed && remember) ==> after == before
            &&& forall|other: Seq<char>|
                other != tool ==> (#[trigger] after.contains(other) <==> before.contains(other))
        }),
        final(state).session(key@).rollback_journal == old(state).session(key@).rollback_journal,
        final(state).runs == old(state).runs,
{
    let tool = old(state).run(run_id@)->0.pending_permission_tools[id@];
    let session = old(state).session(key@);
    let after = final(state).session(key@).remember_allow_tools;
    assert forall|other: Seq<char>| other != tool implies (#[trigger] after.contains(other)
        <==> session.remember_allow_tools.contains(other)) by {
        law_allowed_tools_are_remembered(session, tool, other);
    }
    law_allowed_tools_are_remembered(session, tool, tool);
}

/// A client that asks for a rollback gets it for its own changes.
pub proof fn law_clients_can_roll_back(
    state: &mut ServerState,
    run_id: &str,
    key: &str,
    requested: Option<String>,
    a: ClientAction,
)
    requires
        requested is None || requested->0@ == key@,
        call_ensures(
            ServerState::client_event,
            (
                state,
                run_id,
                key,
                ClientEvent::RollbackLast { runtime_session_key: requested },
            ),
            a,
        ),
    ensures
        a matches ClientAction::Rollback { runtime_session_key } && runtime_session_key@ == key@,
        final(state).session(key@) == old(state).session(key@),
        final(state).runs == old(state).runs,
{
}

} // verus!
