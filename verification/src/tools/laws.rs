//! What holds of the tools: what they do with their arguments, and what they
//! report.

use super::subagent;
use super::subagent::{SubagentRun, SubagentRunView};
use crate::agent::{AgentEvent, AgentEventView};
use crate::config::AgentConfig;
use crate::history;
use crate::json;
use crate::json::Json;
use crate::llm::stream;
use crate::llm::{RollbackKind, ToolExecutionResult};
use crate::paths;
use crate::protocol::{DiffLine, FileChange, FileChangeKind};
use crate::strmap::StrMap;
use crate::text;
use crate::tools;
use crate::tools::defs::{
    BashTool, DeleteTool, EditTool, GlobTool, GrepTool, ReadTool, SubagentTool, WriteTool,
};
use crate::tools::{
    file_change_of, truncate_output, BashPlan, EditPlan, GrepPlan, ReadPlan, SubagentPlan,
    WritePlan,
};
use vstd::prelude::*;
use vstd::string::*;

verus! {

// ---- arguments ----

/// A path that is absolute stands for itself, whatever it is seen from; another
/// one is seen from there.
pub proof fn law_paths_are_seen_from_the_workspace(workspace: Seq<char>, path: Seq<char>)
    ensures
        path.len() > 0 && path[0] == '/' ==> paths::joined(workspace, path) == path,
        !(path.len() > 0 && path[0] == '/') && workspace.len() > 0 && workspace.last() != '/'
            ==> paths::joined(workspace, path) == workspace + "/"@ + path,
{
}

/// Each of the tools that work on a file works on the file that its call names,
/// as seen from the workspace, with the texts that the call gives: the old text
/// is the old one and the new text the new one.
pub proof fn law_tools_take_their_arguments(
    read: &ReadTool,
    write: &WriteTool,
    edit: &EditTool,
    delete: &DeleteTool,
    args: &Json,
    reading: Result<ReadPlan, String>,
    writing: Result<WritePlan, String>,
    editing: Result<EditPlan, String>,
    deleting: Result<String, String>,
)
    requires
        call_ensures(ReadTool::plan, (read, args), reading),
        call_ensures(WriteTool::plan, (write, args), writing),
        call_ensures(EditTool::plan, (edit, args), editing),
        call_ensures(DeleteTool::plan, (delete, args), deleting),
    ensures
        ({
            let path = json::json_text(args@, "file_path"@);
            let content = json::json_text(args@, "content"@);
            let old_text = json::json_text(args@, "old_string"@);
            let new_text = json::json_text(args@, "new_string"@);
            &&& reading is Ok <==> path is Some
            &&& reading matches Ok(p) ==> p.path@ == paths::joined(read.ctx.workspace@, path->0)
                && p.limit == json::json_uint(args@, "limit"@) && (json::json_uint(
                args@,
                "offset"@,
            ) matches Some(n) ==> p.offset == n)
            &&& writing is Ok <==> path is Some && content is Some
            &&& writing matches Ok(p) ==> p.path@ == paths::joined(write.ctx.workspace@, path->0)
                && p.content@ == content->0
            &&& editing is Ok <==> path is Some && old_text is Some && new_text is Some
            &&& editing matches Ok(p) ==> p.path@ == paths::joined(edit.ctx.workspace@, path->0)
                && p.old@ == old_text->0 && p.new@ == new_text->0
            &&& deleting is Ok <==> path is Some
            &&& deleting matches Ok(p) ==> p@ == paths::joined(delete.ctx.workspace@, path->0)
        }),
{
}

/// A command runs as it is given, within the time that is given; a search looks
/// for the pattern that is given, in the directory that is given or else in the
/// workspace; a subagent gets the task that is given.
pub proof fn law_other_tools_take_their_arguments(
    bash: &BashTool,
    grep: &GrepTool,
    subagent: &SubagentTool,
    args: &Json,
    running: Result<BashPlan, String>,
    searching: Result<GrepPlan, String>,
    delegating: Result<SubagentPlan, String>,
)
    requires
        call_ensures(BashTool::plan, (bash, args), running),
        call_ensures(GrepTool::plan, (grep, args), searching),
        call_ensures(SubagentTool::plan, (subagent, args), delegating),
    ensures
        ({
            let command = json::json_text(args@, "command"@);
            let timeout = json::json_uint(args@, "timeout"@);
            let pattern = json::json_text(args@, "pattern"@);
            let dir = json::json_text(args@, "path"@);
            let agent = json::json_text(args@, "agent"@);
            let task = json::json_text(args@, "task"@);
            &&& running is Ok <==> command is Some
            &&& running matches Ok(p) ==> p.command@ == command->0 && (timeout matches Some(n)
                ==> p.timeout == n)
            &&& searching is Ok <==> pattern is Some
            &&& searching matches Ok(p) ==> p.pattern@ == pattern->0 && (dir matches Some(d)
                ==> p.dir@ == paths::joined(grep.ctx.workspace@, d)) && (dir is None ==> p.dir@
                == grep.ctx.workspace@) && text::opt_view(p.files) == json::json_text(
                args@,
                "include"@,
            )
            &&& delegating is Ok <==> agent is Some && task is Some
            &&& delegating matches Ok(p) ==> p.task@ == task->0 && (agent->0 == "@"@ + p.agent@
                || agent->0 == p.agent@ && !text::starts_with(agent->0, "@"@))
        }),
{
    if let Some(name) = json::json_text(args@, "agent"@) {
        if text::starts_with(name, "@"@) {
            let n = "@"@.len() as int;
            assert(name =~= "@"@ + name.skip(n));
        }
    }
}

// ---- reading and searching ----

/// A file that is read whole is given as it is; of a part of it the lines are
/// given from the first one asked for, as many as asked for and as there are, in
/// order.
pub proof fn law_files_are_read_line_by_line(
    content: String,
    offset: u64,
    limit: Option<u64>,
    r: ToolExecutionResult,
)
    requires
        call_ensures(ReadTool::report, (content, offset, limit), r),
    ensures
        ({
            let lines = text::lines(content@);
            let skipped = if offset == 0 {
                0
            } else {
                offset - 1
            };
            &&& offset == 0 && limit is None ==> r.output@ == content@
            &&& offset > 0 && limit is None && skipped <= lines.len() ==> r.output@ == text::join(
                lines.skip(skipped),
                "\n"@,
            )
            &&& limit is Some && skipped + limit->0 <= lines.len() ==> r.output@ == text::join(
                lines.skip(skipped).take(limit->0 as int),
                "\n"@,
            )
            &&& limit is Some && skipped <= lines.len() && lines.len() < skipped + limit->0
                ==> r.output@ == text::join(lines.skip(skipped), "\n"@)
            &&& r.changes@.len() == 0
            &&& r.rollback_entries@.len() == 0
        }),
{
    let lines = text::lines(content@);
    let skipped = if offset == 0 {
        0
    } else {
        offset - 1
    };
    assert(r@.changes.len() == r.changes@.len());
    assert(r@.rollback_entries.len() == r.rollback_entries@.len());
    if skipped <= lines.len() {
        assert(lines.subrange(skipped, lines.len() as int) =~= lines.skip(skipped));
        if let Some(n) = limit {
            if skipped + n <= lines.len() {
                assert(lines.subrange(skipped, skipped + n) =~= lines.skip(skipped).take(
                    n as int,
                ));
            }
        }
    }
}

proof fn lemma_paths_within(found: Seq<Seq<char>>, base: Seq<char>)
    ensures
        tools::paths_within(found, base) == found.filter(|p: Seq<char>| paths::within(p, base)),
    decreases found.len(),
{
    reveal(Seq::filter);
    if found.len() > 0 {
        lemma_paths_within(found.drop_last(), base);
    } else {
        assert(tools::paths_within(found, base) =~= found.filter(
            |p: Seq<char>| paths::within(p, base),
        ));
    }
}

/// The paths that match a pattern are given one below the other, in the order in
/// which they were found, without those that lead out of the workspace.
pub proof fn law_matches_are_listed(found: &Vec<String>, base: &str, r: ToolExecutionResult)
    requires
        call_ensures(GlobTool::report, (found, base), r),
    ensures
        ({
            let kept = text::views(found@).filter(|p: Seq<char>| paths::within(p, base@));
            &&& kept.len() > 0 ==> r.output@ == text::join(kept, "\n"@)
            &&& kept.len() == 0 ==> r.output@ == "No matches found."@
        }),
{
    lemma_paths_within(text::views(found@), base@);
}

/// Output that is not too long is given as it is; of longer output the start is
/// given, up to the limit and not cut within a character, and how long it is.
pub proof fn law_long_output_is_cut(output: String, s: String)
    requires
        call_ensures(truncate_output, (output,), s),
    ensures
        text::byte_len(output@) <= tools::MAX_OUTPUT_BYTES ==> s@ == output@,
        text::byte_len(output@) > tools::MAX_OUTPUT_BYTES ==> exists|n: int|
            {
                &&& 0 <= n < output@.len()
                &&& s@ == #[trigger] output@.take(n) + "\n\n[output truncated — "@ + text::decimal(
                    text::byte_len(output@),
                ) + " bytes total]"@
                &&& text::byte_len(output@.take(n)) <= tools::MAX_OUTPUT_BYTES
                &&& text::byte_len(output@.take(n + 1)) > tools::MAX_OUTPUT_BYTES
            },
{
    let max = tools::MAX_OUTPUT_BYTES as nat;
    text::lemma_truncated(output@, max);
    let n = text::truncated(output@, max).len() as int;
    if text::byte_len(output@) > tools::MAX_OUTPUT_BYTES {
        if n == output@.len() {
            assert(output@.take(n) =~= output@);
        }
        assert(text::byte_len(output@.take(n + 1)) > max);
        assert(output@.take(n) == text::truncated(output@, max));
    }
}

/// What a search finds is given as it was printed, or that nothing was found.
pub proof fn law_findings_are_given(stdout: String, r: ToolExecutionResult)
    requires
        call_ensures(GrepTool::report, (stdout,), r),
    ensures
        stdout@.len() == 0 ==> r.output@ == "No matches found."@,
        stdout@.len() > 0 && text::byte_len(stdout@) <= tools::MAX_OUTPUT_BYTES ==> r.output@
            == stdout@,
{
}

// ---- commands ----

/// What a command prints is given, the errors below the output; where the
/// command fails, that it did follows, with its exit code.
pub proof fn law_command_output_is_given(
    stdout: &str,
    stderr: &str,
    success: bool,
    code: Option<i32>,
    r: ToolExecutionResult,
    printed: Seq<char>,
)
    requires
        call_ensures(BashTool::report, (stdout, stderr, success, code), r),
        printed == if stdout@.len() > 0 && stderr@.len() > 0 {
            stdout@ + "\n"@ + stderr@
        } else if stdout@.len() > 0 {
            stdout@
        } else {
            stderr@
        },
    ensures
        ({
            let failed = "[exit code: "@ + text::signed_decimal(code->0 as int) + "]"@;
            &&& success && printed.len() > 0 && text::byte_len(printed) <= tools::MAX_OUTPUT_BYTES
                ==> r.output@ == printed
            &&& success && printed.len() == 0 ==> r.output@ == "(no output)"@
            &&& !success && code is Some && printed.len() > 0 && text::byte_len(
                printed + "\n"@ + failed,
            ) <= tools::MAX_OUTPUT_BYTES ==> r.output@ == printed + "\n"@ + failed
            &&& !success && code is Some && printed.len() == 0 && text::byte_len(failed)
                <= tools::MAX_OUTPUT_BYTES ==> r.output@ == failed
            &&& r.changes@.len() == 0
            &&& r.rollback_entries@.len() == 0
        }),
{
    assert(r@.changes.len() == r.changes@.len());
    assert(r@.rollback_entries.len() == r.rollback_entries@.len());
    reveal_strlit("(no output)");
    assert(tools::on_lines(stdout@, stderr@) =~= printed);
    lemma_short("(no output)"@);
}

proof fn lemma_short(s: Seq<char>)
    ensures
        text::byte_len(s) <= 4 * s.len(),
    decreases s.len(),
{
    if s.len() > 0 {
        lemma_short(s.skip(1));
    }
}

// ---- changes ----

/// What a tool that changes a file reports names the file, and keeps what it
/// held before and what it is recognized by afterwards, so that it can be put
/// back. A new file is reported as added; where nothing changes, no change is
/// reported.
pub proof fn law_writes_are_reported(
    path: &str,
    before: Option<String>,
    content: &str,
    r: ToolExecutionResult,
)
    requires
        call_ensures(WriteTool::report, (path, before, content), r),
    ensures
        r@.rollback_entries.len() == 1,
        r@.rollback_entries[0].path == path@,
        r@.rollback_entries[0].before_content == text::opt_view(before),
        r@.rollback_entries[0].expected_after_hash == Some(tools::content_hash(content@)),
        before is Some ==> r@.rollback_entries[0].kind == RollbackKind::Modified,
        before is None ==> r@.rollback_entries[0].kind == RollbackKind::Added,
        before is None ==> r@.changes.len() == 1 && r@.changes[0].path == path@
            && r@.changes[0].kind == FileChangeKind::Added,
        before is Some && before->0@ != content@ ==> r@.changes.len() == 1 && r@.changes[0].path
            == path@ && r@.changes[0].kind == FileChangeKind::Modified,
        before is Some && before->0@ == content@ ==> r@.changes.len() == 0,
{
}

/// The same of an edit, and of a deletion, after which nothing is left to be
/// recognized.
pub proof fn law_edits_and_deletions_are_reported(
    path: &str,
    before: String,
    after: &str,
    edit: ToolExecutionResult,
    deletion: ToolExecutionResult,
)
    requires
        call_ensures(EditTool::report, (path, before, after), edit),
        call_ensures(DeleteTool::report, (path, before), deletion),
    ensures
        edit@.rollback_entries.len() == 1,
        edit@.rollback_entries[0].path == path@,
        edit@.rollback_entries[0].kind == RollbackKind::Modified,
        edit@.rollback_entries[0].before_content == Some(before@),
        edit@.rollback_entries[0].expected_after_hash == Some(tools::content_hash(after@)),
        before@ != after@ ==> edit@.changes.len() == 1 && edit@.changes[0].path == path@
            && edit@.changes[0].kind == FileChangeKind::Modified,
        before@ == after@ ==> edit@.changes.len() == 0,
        deletion@.rollback_entries.len() == 1,
        deletion@.rollback_entries[0].path == path@,
        deletion@.rollback_entries[0].kind == RollbackKind::Removed,
        deletion@.rollback_entries[0].before_content == Some(before@),
        deletion@.changes.len() == 1,
        deletion@.changes[0].path == path@,
        deletion@.changes[0].kind == FileChangeKind::Removed,
{
}

/// An edit replaces the first occurrence of the old text by the new one and
/// leaves all else as it is; where the old text does not occur, it fails.
pub proof fn law_edits_replace_the_first_occurrence(
    path: &str,
    content: &str,
    old_text: &str,
    new_text: &str,
    r: Result<String, String>,
    start: Seq<char>,
    rest: Seq<char>,
)
    requires
        call_ensures(EditTool::edited, (path, content, old_text, new_text), r),
        content@ == start + old_text@ + rest,
        forall|j: int|
            0 <= j < start.len() ==> !text::starts_with(#[trigger] content@.skip(j), old_text@),
    ensures
        r matches Ok(edited) && edited@ == start + new_text@ + rest,
{
    let s = content@;
    let k = start.len() as int;
    assert(s.skip(k).take(old_text@.len() as int) =~= old_text@);
    text::lemma_find_not_behind(s, old_text@, k);
    text::laws::lemma_found_there(s, old_text@);
    let found = text::find(s, old_text@)->0 as int;
    assert(text::starts_with(s.skip(found), old_text@));
    assert(found == k);
    assert(s.take(k) =~= start);
    assert(s.skip(k + old_text@.len()) =~= rest);
}

/// Where the old text does not occur, an edit fails.
pub proof fn law_edits_need_the_old_text(
    path: &str,
    content: &str,
    old_text: &str,
    new_text: &str,
    r: Result<String, String>,
)
    requires
        call_ensures(EditTool::edited, (path, content, old_text, new_text), r),
        forall|j: int|
            0 <= j <= content@.len() ==> !text::starts_with(#[trigger] content@.skip(j), old_text@),
    ensures
        r is Err,
{
    text::laws::lemma_found_there(content@, old_text@);
}

/// The lines of a difference are shown in order, each as what it is and without
/// its line feed; where there are too many, the first ones are shown, and it is
/// said that there are more.
pub proof fn law_differences_are_shown(path: &str, changes: &Vec<DiffLine>, c: FileChange)
    requires
        call_ensures(file_change_of, (path, changes), c),
    ensures
        c@.path == path@,
        c@.kind == FileChangeKind::Modified,
        c@.truncated == (changes@.len() > tools::MAX_DIFF_LINES_PER_FILE),
        c@.truncated ==> c@.diff_lines.len() == tools::MAX_DIFF_LINES_PER_FILE,
        !c@.truncated ==> c@.diff_lines.len() == changes@.len(),
        forall|i: int|
            0 <= i < c@.diff_lines.len() ==> (#[trigger] c@.diff_lines[i]).kind == changes@[i]@.kind
                && (c@.diff_lines[i].content + seq!['\n'] == changes@[i]@.content
                || c@.diff_lines[i].content == changes@[i]@.content),
{
    let views = DiffLine::views(changes@);
    assert(views.len() == changes@.len());
    assert forall|i: int| 0 <= i < c@.diff_lines.len() implies (#[trigger] c@.diff_lines[i]).kind
        == changes@[i]@.kind && (c@.diff_lines[i].content + seq!['\n'] == changes@[i]@.content
        || c@.diff_lines[i].content == changes@[i]@.content) by {
        assert(views[i] == changes@[i]@);
        let line = views[i].content;
        if line.len() > 0 && line.last() == '\n' {
            assert(line.drop_last() + seq!['\n'] =~= line);
        }
    }
}

// ---- subagents ----

/// An agent can be called if it is known and open to other agents, as long as
/// calls are not nested too deeply.
pub proof fn law_known_subagents_can_be_called(
    depth: u8,
    max_depth: u8,
    agents: &StrMap<AgentConfig>,
    name: &str,
    r: Result<(), String>,
)
    requires
        call_ensures(subagent::check_call, (depth, max_depth, agents, name), r),
    ensures
        r is Ok <==> depth < max_depth && agents@.contains_key(name@) && (agents@[name@].mode@
            == "subagent"@ || agents@[name@].mode@ == "all"@),
{
}

/// What a subagent has reported so far.
pub open spec fn run_after(
    run: SubagentRunView,
    events: Seq<Result<AgentEventView, Seq<char>>>,
) -> SubagentRunView
    decreases events.len(),
{
    if events.len() == 0 {
        run
    } else {
        run_after(run, events.drop_last()).with_event(events.last())
    }
}

/// What a subagent says is kept in the order in which it says it.
pub proof fn law_subagents_are_listened_to(run: SubagentRunView, pieces: Seq<Seq<char>>)
    requires
        run.content.len() == 0,
    ensures
        ({
            let events = pieces.map_values(
                |piece: Seq<char>|
                    Ok::<AgentEventView, Seq<char>>(AgentEventView::TextDelta(piece)),
            );
            let end = run_after(run, events);
            &&& end.content == stream::run_together(pieces)
            &&& end.id == run.id
            &&& end.name == run.name
            &&& end.tool_log == run.tool_log
            &&& end.ended == run.ended
        }),
    decreases pieces.len(),
{
    let events = pieces.map_values(
        |piece: Seq<char>| Ok::<AgentEventView, Seq<char>>(AgentEventView::TextDelta(piece)),
    );
    if pieces.len() > 0 {
        law_subagents_are_listened_to(run, pieces.drop_last());
        assert(events.drop_last() =~= pieces.drop_last().map_values(
            |piece: Seq<char>| Ok::<AgentEventView, Seq<char>>(AgentEventView::TextDelta(piece)),
        ));
        assert(events.last() == Ok::<AgentEventView, Seq<char>>(
            AgentEventView::TextDelta(pieces.last()),
        ));
    } else {
        assert(run.content =~= Seq::empty());
    }
}

/// When a subagent ends, what it says at the end is its answer, or its error;
/// until then it goes on.
pub proof fn law_subagents_end_with_their_answer(
    run: SubagentRunView,
    event: Result<AgentEventView, Seq<char>>,
)
    ensures
        ({
            let next = run.with_event(event);
            &&& next.id == run.id
            &&& next.name == run.name
            &&& match event {
                Ok(AgentEventView::Done { content, .. }) => next.ended && next.content == content,
                Ok(AgentEventView::Cancelled { content, .. }) => next.ended && next.content
                    == content,
                Ok(AgentEventView::NeedsContinuation { content, .. }) => next.ended && next.content
                    == content,
                Err(error) => next.ended && next.content == "[Sub-agent error: "@ + error + "]"@,
                Ok(AgentEventView::ToolStarted { name, .. }) => next.ended == run.ended
                    && next.content == run.content && next.tool_log == run.tool_log
                    + "\n  [Tool: "@ + name + "]"@,
                Ok(AgentEventView::ToolFailed { error, .. }) => next.ended == run.ended
                    && next.content == run.content && next.tool_log == run.tool_log
                    + " → FAILED: "@ + error,
                Ok(AgentEventView::ToolCompleted { result, .. }) => next.ended == run.ended
                    && next.content == run.content && (text::byte_len(result) <= 100
                    ==> next.tool_log == run.tool_log + " → "@ + result),
                Ok(_) => next.ended == run.ended && next.tool_log == run.tool_log,
            }
        }),
{
    let next = run.with_event(event);
    match event {
        Ok(AgentEventView::ToolStarted { name, .. }) => {
            assert(next.tool_log =~= run.tool_log + "\n  [Tool: "@ + name + "]"@);
        },
        Ok(AgentEventView::ToolFailed { error, .. }) => {
            assert(next.tool_log =~= run.tool_log + " → FAILED: "@ + error);
        },
        Ok(AgentEventView::ToolCompleted { result, .. }) => {
            if text::byte_len(result) <= 100 {
                assert(next.tool_log =~= run.tool_log + " → "@ + result);
            }
        },
        _ => {},
    }
}

/// What a subagent reports of its work is passed on under the identifier of its
/// run, with the texts, results and errors as they are.
pub proof fn law_subagents_are_reported(run: SubagentRunView, event: AgentEventView)
    ensures
        ({
            let told = run.forwarded(Ok(event));
            match event {
                AgentEventView::TextDelta(text) => told == Some(
                    AgentEventView::SubagentTextDelta { id: run.id, data: text },
                ),
                AgentEventView::ReasoningDelta(text) => told == Some(
                    AgentEventView::SubagentReasoningDelta { id: run.id, data: text },
                ),
                AgentEventView::ToolStarted { id, name } => told == Some(
                    AgentEventView::SubagentToolStarted {
                        id: run.id,
                        sub_id: id,
                        tool_name: name,
                    },
                ),
                AgentEventView::ToolCompleted { id, result, changes, .. } => told == Some(
                    AgentEventView::SubagentToolCompleted {
                        id: run.id,
                        sub_id: id,
                        result,
                        changes,
                    },
                ),
                AgentEventView::ToolFailed { id, error } => told == Some(
                    AgentEventView::SubagentToolFailed { id: run.id, sub_id: id, error },
                ),
                _ => told is None,
            }
        }),
{
}

/// What the agent that delegated gets is the subagent's answer, behind the list
/// of the tools that it used; an answer without any text still says that the
/// subagent is done.
pub proof fn law_delegated_work_is_given_back(run: &SubagentRun, r: (String, AgentEvent))
    requires
        call_ensures(SubagentRun::conclude, (run,), r),
    ensures
        run@.tool_log.len() == 0 && run@.content.len() > 0 ==> r.0@ == run@.content,
        run@.tool_log.len() > 0 ==> r.0@ == "[Tools used:"@ + run@.tool_log + "]\n"@
            + run@.content,
        run@.tool_log.len() == 0 && run@.content.len() == 0 ==> r.0@ == "[Sub-agent '"@ + run@.name
            + "' completed]"@,
        r.1@ == (AgentEventView::SubagentDone { id: run@.id, content: run@.content }),
{
}

/// The difference that is shown of a modified file is the one from what it held
/// to what it holds.
pub proof fn law_differences_go_from_before_to_after(
    path: &str,
    before: &str,
    after: &str,
    c: Option<FileChange>,
)
    requires
        call_ensures(tools::compute_modified_file_change, (path, before, after), c),
    ensures
        c is Some <==> before@ != after@,
        c matches Some(change) ==> {
            let lines = tools::line_changes(before@, after@, tools::DIFF_CONTEXT_LINES);
            &&& change@.path == path@
            &&& change@.kind == FileChangeKind::Modified
            &&& lines.len() <= tools::MAX_DIFF_LINES_PER_FILE ==> change@.diff_lines.len()
                == lines.len()
            &&& forall|i: int|
                0 <= i < change@.diff_lines.len() ==> i < lines.len() && (
                #[trigger] change@.diff_lines[i]).kind == lines[i].kind && text::starts_with(
                    lines[i].content,
                    change@.diff_lines[i].content,
                )
        },
{
    if let Some(change) = c {
        let lines = tools::line_changes(before@, after@, tools::DIFF_CONTEXT_LINES);
        assert forall|i: int| 0 <= i < change@.diff_lines.len() implies i < lines.len() && (
        #[trigger] change@.diff_lines[i]).kind == lines[i].kind && text::starts_with(
            lines[i].content,
            change@.diff_lines[i].content,
        ) by {
            let line = lines[i].content;
            let shown = change@.diff_lines[i].content;
            assert(shown == tools::without_line_feed(line));
            assert(line.take(shown.len() as int) =~= shown);
        }
    }
}

/// A path is accepted exactly if it lies in the workspace and does not climb; it
/// is then the canonical form that is used.
pub proof fn law_paths_below_the_workspace_are_accepted(
    resolved: &str,
    workspace: &str,
    canonical: String,
    canonical_workspace: &str,
    r: Result<String, String>,
    name: Seq<char>,
)
    requires
        call_ensures(
            tools::validate_path_in_workspace,
            (resolved, workspace, canonical, canonical_workspace),
            r,
        ),
    ensures
        r is Ok <==> paths::within(canonical@, canonical_workspace@) && !paths::components(
            canonical@,
        ).contains(".."@),
        r matches Ok(p) ==> p@ == canonical@,
        canonical_workspace@.len() > 0 && name.len() > 0 && !name.contains('/') && name != "."@
            && name != ".."@ && !paths::components(canonical_workspace@).contains(".."@)
            && canonical@ == paths::joined(canonical_workspace@, name) ==> r is Ok,
{
    if canonical_workspace@.len() > 0 && name.len() > 0 && !name.contains('/') && name != "."@
        && name != ".."@ && !paths::components(canonical_workspace@).contains(".."@) {
        let base = paths::components(canonical_workspace@);
        paths::law_names_stay_below(canonical_workspace@, name);
        let all = base.push(name);
        if all.contains(".."@) {
            let i = choose|i: int| 0 <= i < all.len() && all[i] == ".."@;
            assert(base[i] == ".."@);
        }
    }
}

/// A search looks for the pattern in the directory, whatever program runs it.
pub proof fn law_searches_look_for_the_pattern(
    backend: tools::GrepBackend,
    pattern: &str,
    dir: &str,
    files: &Option<String>,
    command: Vec<String>,
)
    requires
        call_ensures(GrepTool::command, (backend, pattern, dir, files), command),
    ensures
        exists|i: int, j: int|
            0 < i < j < command@.len() && (#[trigger] command@[i])@ == pattern@ && (
            #[trigger] command@[j])@ == dir@,
        backend is Ripgrep ==> command@[0]@ == "rg"@,
        backend is Grep ==> command@[0]@ == "grep"@,
        files is Some ==> exists|i: int|
            0 < i < command@.len() && (#[trigger] command@[i])@ == files->0@,
{
    let all = text::views(command@);
    assert(all.len() == command@.len());
    assert forall|i: int| 0 <= i < all.len() implies #[trigger] all[i] == command@[i]@ by {}
    match backend {
        tools::GrepBackend::Ripgrep => {
            assert(all[0] == "rg"@);
            assert(all[4] == pattern@ && all[5] == dir@);
            assert(command@[4]@ == pattern@ && command@[5]@ == dir@);
            if files is Some {
                assert(all[7] == files->0@);
                assert(command@[7]@ == files->0@);
            }
        },
        tools::GrepBackend::Grep => {
            assert(all[0] == "grep"@);
            assert(all[4] == pattern@);
            let last = all.len() - 1;
            assert(all[last] == dir@);
            assert(command@[4]@ == pattern@ && command@[last]@ == dir@);
            if files is Some {
                assert(all[6] == files->0@);
                assert(command@[6]@ == files->0@);
            }
        },
    }
}

/// A skill without a frontmatter is given as it is, without the whitespace
/// around it.
pub proof fn law_plain_skills_are_given(name: &str, content: &str, r: ToolExecutionResult)
    requires
        call_ensures(tools::defs::UseSkillTool::report, (name, content), r),
        !text::starts_with(content@, "---"@),
        text::trimmed(content@).len() > 0,
    ensures
        r.output@ == text::trimmed(content@),
{
    lemma_no_opening(content@);
    assert(tools::skill_body(content@) == text::trimmed(content@));
}

proof fn lemma_no_opening(s: Seq<char>)
    requires
        !text::starts_with(s, "---"@),
    ensures
        history::after_opening(s) is None,
{
    reveal_strlit("---");
    reveal_strlit("---\n");
    reveal_strlit("---\r\n");
    if text::starts_with(s, "---\n"@) {
        assert(s.take(3) =~= "---\n"@.take(3));
        assert("---\n"@.take(3) =~= "---"@);
    }
    if text::starts_with(s, "---\r\n"@) {
        assert(s.take(3) =~= "---\r\n"@.take(3));
        assert("---\r\n"@.take(3) =~= "---"@);
    }
}

/// Of a skill with a frontmatter, what stands behind the frontmatter is given.
pub proof fn law_skills_are_given_without_their_frontmatter(
    name: &str,
    content: &str,
    r: ToolExecutionResult,
    yaml: Seq<char>,
    body: Seq<char>,
)
    requires
        call_ensures(tools::defs::UseSkillTool::report, (name, content), r),
        content@ == "---\n"@ + (yaml + "\n---"@ + body),
        text::find(yaml + "\n---"@ + body, "\n---"@) == Some(yaml.len()),
        text::trimmed(text::trim_start_char(body, '\n')).len() > 0,
    ensures
        r.output@ == text::trimmed(text::trim_start_char(body, '\n')),
{
    let rest = yaml + "\n---"@ + body;
    let n = "---\n"@.len() as int;
    assert(content@.take(n) =~= "---\n"@);
    assert(content@.skip(n) =~= rest);
    assert(history::after_opening(content@) == Some(rest));
    assert(rest.take(yaml.len() as int) =~= yaml);
    assert(rest.skip((yaml.len() + "\n---"@.len()) as int) =~= body);
    assert(history::frontmatter(rest) == Some((yaml, body)));
}

/// A run of a subagent takes what the subagent says behind what it said before,
/// and passes it on under the identifier of the run.
pub proof fn law_subagent_texts_are_taken_and_passed_on(
    run: &mut SubagentRun,
    piece: String,
    r: Option<AgentEvent>,
)
    requires
        call_ensures(
            SubagentRun::event,
            (run, Ok::<AgentEvent, String>(AgentEvent::TextDelta(piece))),
            r,
        ),
    ensures
        final(run).content@ == old(run).content@ + piece@,
        final(run).tool_log@ == old(run).tool_log@,
        final(run).ended == old(run).ended,
        r is Some,
        r->0 matches AgentEvent::SubagentTextDelta { id, data } && id@ == old(run).id@ && data@
            == piece@,
{
}

/// A subagent that ends or fails has ended, with its answer or its error.
pub proof fn law_subagents_end(run: &mut SubagentRun, event: Result<AgentEvent, String>, r: Option<AgentEvent>)
    requires
        call_ensures(SubagentRun::event, (run, event), r),
    ensures
        event matches Ok(AgentEvent::Done { content, .. }) ==> final(run).ended
            && final(run).content@ == content@,
        event matches Err(e) ==> final(run).ended && final(run).content@ == "[Sub-agent error: "@
            + e@ + "]"@,
{
}

} // verus!
