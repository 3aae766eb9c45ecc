//! Undoing what tools did to files.

use super::{
    kept_after, RollbackChangeSet, RollbackChangeSetView, RunProgress, RuntimeSessionStateView,
    ServerState,
};
use crate::llm::{RollbackEntry, RollbackEntryView, RollbackKind};
use crate::agent::{AgentEvent, AgentEventView};
use crate::protocol::{FileChange, FileChangeView, RollbackResultPayload, RollbackResultPayloadView};
use crate::text;
use crate::tools;
use vstd::prelude::*;
use vstd::string::*;

verus! {

/// The hash by which a file is recognized that is as a tool left it.
pub fn hash64(content: &str) -> (h: u64)
    ensures
        h == tools::content_hash(content@),
{
    tools::content_hash64(content)
}

/// What is found in place of a file.
#[derive(Debug)]
pub struct FoundFile {
    pub exists: bool,
    /// What it holds, or why it cannot be read.
    pub content: Result<String, String>,
}

/// The model of [`FoundFile`].
pub struct FoundFileView {
    pub exists: bool,
    pub content: Result<Seq<char>, Seq<char>>,
}

impl View for FoundFile {
    type V = FoundFileView;

    open spec fn view(&self) -> FoundFileView {
        FoundFileView { exists: self.exists, content: text::result_view(self.content) }
    }
}

/// The models of what is found.
pub open spec fn found_views(v: Seq<FoundFile>) -> Seq<FoundFileView> {
    v.map_values(|f: FoundFile| f@)
}

/// Why a file cannot be put back, if it cannot: it is not as the tool left it.
pub open spec fn conflict(entry: RollbackEntryView, found: FoundFileView) -> Option<Seq<char>> {
    match entry.kind {
        RollbackKind::Modified => match found.content {
            Err(e) => Some("Rollback blocked: failed to read "@ + entry.path + ": "@ + e),
            Ok(content) => if entry.expected_after_hash == Some(tools::content_hash(content)) {
                None
            } else {
                Some("Rollback blocked: "@ + entry.path + " changed since the original edit."@)
            },
        },
        RollbackKind::Added => if !found.exists {
            Some("Rollback blocked: "@ + entry.path + " is already missing."@)
        } else {
            match found.content {
                Err(e) => Some("Rollback blocked: failed to read "@ + entry.path + ": "@ + e),
                Ok(content) => if entry.expected_after_hash == Some(
                    tools::content_hash(content),
                ) {
                    None
                } else {
                    Some("Rollback blocked: "@ + entry.path + " changed since it was added."@)
                },
            }
        },
        RollbackKind::Removed => if found.exists {
            Some("Rollback blocked: "@ + entry.path + " already exists."@)
        } else {
            None
        },
    }
}

/// Why a change set cannot be undone, if it cannot: the first conflict.
pub open spec fn first_conflict(
    entries: Seq<RollbackEntryView>,
    found: Seq<FoundFileView>,
) -> Option<Seq<char>>
    decreases entries.len(),
{
    if entries.len() == 0 {
        None
    } else {
        match conflict(entries[0], found[0]) {
            Some(c) => Some(c),
            None => first_conflict(entries.skip(1), found.skip(1)),
        }
    }
}

fn failed_to_read(path: &str, e: &str) -> (s: String)
    ensures
        s@ == "Rollback blocked: failed to read "@ + path@ + ": "@ + e@,
{
    let mut s = text::cat3("Rollback blocked: failed to read ", path, ": ");
    s.append(e);
    s
}

fn is_expected(entry: &RollbackEntry, content: &str) -> (b: bool)
    ensures
        b == (entry.expected_after_hash == Some(tools::content_hash(content@))),
{
    match entry.expected_after_hash {
        Some(h) => h == hash64(content),
        None => false,
    }
}

fn check_entry(entry: &RollbackEntry, found: &FoundFile) -> (r: Option<String>)
    ensures
        text::opt_view(r) == conflict(entry@, found@),
{
    let path = entry.path.as_str();
    match entry.kind {
        RollbackKind::Modified => match &found.content {
            Err(e) => Some(failed_to_read(path, e.as_str())),
            Ok(content) => if is_expected(entry, content.as_str()) {
                None
            } else {
                Some(text::cat3("Rollback blocked: ", path, " changed since the original edit."))
            },
        },
        RollbackKind::Added => if !found.exists {
            Some(text::cat3("Rollback blocked: ", path, " is already missing."))
        } else {
            match &found.content {
                Err(e) => Some(failed_to_read(path, e.as_str())),
                Ok(content) => if is_expected(entry, content.as_str()) {
                    None
                } else {
                    Some(text::cat3("Rollback blocked: ", path, " changed since it was added."))
                },
            }
        },
        RollbackKind::Removed => if found.exists {
            Some(text::cat3("Rollback blocked: ", path, " already exists."))
        } else {
            None
        },
    }
}

/// One step of undoing a change set.
#[derive(Debug)]
pub enum FileAction {
    /// Writes a file that is there.
    Write { path: String, content: String },
    /// Removes a file.
    Remove { path: String },
    /// Writes a file that is gone, in a directory that is created if need be.
    Restore { path: String, content: String },
}

/// The model of [`FileAction`].
pub enum FileActionView {
    Write { path: Seq<char>, content: Seq<char> },
    Remove { path: Seq<char> },
    Restore { path: Seq<char>, content: Seq<char> },
}

impl View for FileAction {
    type V = FileActionView;

    open spec fn view(&self) -> FileActionView {
        match *self {
            FileAction::Write { path, content } => {
                FileActionView::Write { path: path@, content: content@ }
            },
            FileAction::Remove { path } => FileActionView::Remove { path: path@ },
            FileAction::Restore { path, content } => {
                FileActionView::Restore { path: path@, content: content@ }
            },
        }
    }
}

/// The models of a sequence of steps.
pub open spec fn action_views(v: Seq<FileAction>) -> Seq<FileActionView> {
    v.map_values(|a: FileAction| a@)
}

/// How what a tool did to one file is undone.
pub open spec fn undoing(entry: RollbackEntryView) -> Option<FileActionView> {
    match (entry.kind, entry.before_content) {
        (RollbackKind::Modified, Some(content)) => Some(
            FileActionView::Write { path: entry.path, content },
        ),
        (RollbackKind::Added, _) => Some(FileActionView::Remove { path: entry.path }),
        (RollbackKind::Removed, Some(content)) => Some(
            FileActionView::Restore { path: entry.path, content },
        ),
        _ => None,
    }
}

/// How a change set is undone, file by file.
pub open spec fn undoing_all(entries: Seq<RollbackEntryView>) -> Seq<FileActionView>
    decreases entries.len(),
{
    if entries.len() == 0 {
        Seq::empty()
    } else {
        let before = undoing_all(entries.drop_last());
        match undoing(entries.last()) {
            Some(a) => before.push(a),
            None => before,
        }
    }
}

fn undo_entry(entry: &RollbackEntry) -> (r: Option<FileAction>)
    ensures
        match r {
            Some(a) => undoing(entry@) == Some(a@),
            None => undoing(entry@) is None,
        },
{
    match entry.kind {
        RollbackKind::Modified => match &entry.before_content {
            Some(content) => Some(
                FileAction::Write { path: entry.path.clone(), content: content.clone() },
            ),
            None => None,
        },
        RollbackKind::Added => Some(FileAction::Remove { path: entry.path.clone() }),
        RollbackKind::Removed => match &entry.before_content {
            Some(content) => Some(
                FileAction::Restore { path: entry.path.clone(), content: content.clone() },
            ),
            None => None,
        },
    }
}

/// How a change set is undone, file by file.
pub fn undo_all(entries: &Vec<RollbackEntry>) -> (actions: Vec<FileAction>)
    ensures
        action_views(actions@) == undoing_all(RollbackEntry::views(entries@)),
{
    let ghost all = RollbackEntry::views(entries@);
    let mut actions: Vec<FileAction> = Vec::new();
    let mut i: usize = 0;
    assert(action_views(actions@) =~= undoing_all(all.take(0)));
    while i < entries.len()
        invariant
            i <= entries.len(),
            all == RollbackEntry::views(entries@),
            action_views(actions@) == undoing_all(all.take(i as int)),
        decreases entries.len() - i,
    {
        assert(all.take(i + 1).drop_last() =~= all.take(i as int));
        assert(all.take(i + 1).last() == entries@[i as int]@);
        match undo_entry(&entries[i]) {
            Some(a) => {
                let ghost before = action_views(actions@);
                actions.push(a);
                assert(action_views(actions@) =~= before.push(a@));
            },
            None => {},
        }
        i += 1;
    }
    assert(all.take(all.len() as int) =~= all);
    actions
}

/// Where a step of undoing fails.
#[derive(Debug)]
pub enum FailedStep {
    /// The directory, which is named, could not be created.
    Directory(String),
    /// The file could not be written or removed.
    File,
}

/// The model of [`FailedStep`].
pub enum FailedStepView {
    Directory(Seq<char>),
    File,
}

impl View for FailedStep {
    type V = FailedStepView;

    open spec fn view(&self) -> FailedStepView {
        match *self {
            FailedStep::Directory(d) => FailedStepView::Directory(d@),
            FailedStep::File => FailedStepView::File,
        }
    }
}

/// What is said of a step that failed.
pub open spec fn failure(action: FileActionView, step: FailedStepView, e: Seq<char>) -> Seq<char> {
    match step {
        FailedStepView::Directory(dir) => "Rollback failed creating "@ + dir + ": "@ + e,
        FailedStepView::File => match action {
            FileActionView::Write { path, .. } => "Rollback failed writing "@ + path + ": "@ + e,
            FileActionView::Remove { path } => "Rollback failed removing "@ + path + ": "@ + e,
            FileActionView::Restore { path, .. } => {
                "Rollback failed restoring "@ + path + ": "@ + e
            },
        },
    }
}

/// An answer that nothing was undone, or not all.
pub open spec fn refused(message: Seq<char>) -> RollbackResultPayloadView {
    RollbackResultPayloadView { success: false, message, changes: Seq::empty() }
}

pub(crate) fn refusal(message: String) -> (p: RollbackResultPayload)
    ensures
        p@ == refused(message@),
{
    let p = RollbackResultPayload { success: false, message, changes: Vec::new() };
    assert(p@.changes =~= Seq::empty());
    p
}

/// The answer where a step failed.
pub fn step_failed(action: &FileAction, step: &FailedStep, e: &str) -> (p: RollbackResultPayload)
    ensures
        p@ == refused(failure(action@, step@, e@)),
{
    let mut message = match step {
        FailedStep::Directory(dir) => {
            text::cat3("Rollback failed creating ", dir.as_str(), ": ")
        },
        FailedStep::File => match action {
            FileAction::Write { path, .. } => {
                text::cat3("Rollback failed writing ", path.as_str(), ": ")
            },
            FileAction::Remove { path } => {
                text::cat3("Rollback failed removing ", path.as_str(), ": ")
            },
            FileAction::Restore { path, .. } => {
                text::cat3("Rollback failed restoring ", path.as_str(), ": ")
            },
        },
    };
    message.append(e);
    refusal(message)
}

/// Whether a change set can be undone, given what is found in place of its
/// files. Nothing is done to any file before all of them are checked.
pub fn plan_rollback(set: &RollbackChangeSet, found: &Vec<FoundFile>) -> (r: Result<
    Vec<FileAction>,
    RollbackResultPayload,
>)
    requires
        found@.len() == set.entries@.len(),
    ensures
        match first_conflict(set@.entries, found_views(found@)) {
            Some(message) => r matches Err(p) && p@ == refused(message),
            None => r matches Ok(actions) && action_views(actions@) == undoing_all(set@.entries),
        },
{
    let ghost entries = set@.entries;
    let ghost files = found_views(found@);
    let mut i: usize = 0;
    assert(entries.skip(0) =~= entries);
    assert(files.skip(0) =~= files);
    while i < set.entries.len()
        invariant
            i <= set.entries.len(),
            found@.len() == set.entries@.len(),
            entries == set@.entries,
            files == found_views(found@),
            first_conflict(entries, files) == first_conflict(
                entries.skip(i as int),
                files.skip(i as int),
            ),
        decreases set.entries.len() - i,
    {
        assert(entries.skip(i as int)[0] == set.entries@[i as int]@);
        assert(files.skip(i as int)[0] == found@[i as int]@);
        match check_entry(&set.entries[i], &found[i]) {
            Some(message) => {
                return Err(refusal(message));
            },
            None => {},
        }
        assert(entries.skip(i as int).skip(1) =~= entries.skip(i + 1));
        assert(files.skip(i as int).skip(1) =~= files.skip(i + 1));
        i += 1;
    }
    Ok(undo_all(&set.entries))
}

/// What is answered where nothing can be undone.
pub const NOTHING_TO_UNDO: &'static str = "No reversible changes available in this session.";

impl RuntimeSessionStateView {
    /// The latest change set is undone.
    pub open spec fn undone(self) -> RuntimeSessionStateView {
        if self.rollback_journal.len() == 0 {
            self
        } else {
            RuntimeSessionStateView {
                rollback_journal: self.rollback_journal.drop_last(),
                ..self
            }
        }
    }
}

impl ServerState {
    /// The latest change set of a client.
    pub fn last_changes(&self, key: &str) -> (r: Result<RollbackChangeSet, RollbackResultPayload>)
        ensures
            ({
                let journal = self.session(key@).rollback_journal;
                if journal.len() == 0 {
                    r matches Err(p) && p@ == refused(NOTHING_TO_UNDO@)
                } else {
                    r matches Ok(set) && set@ == journal.last()
                }
            }),
    {
        match self.sessions.get(key) {
            Some(s) => {
                let n: usize = s.rollback_journal.len();
                if n > 0 {
                    return Ok(s.rollback_journal[n - 1].clone());
                }
            },
            None => {},
        }
        Err(refusal(NOTHING_TO_UNDO.to_owned()))
    }

    /// Forgets the latest change set of a client once it is undone, and says
    /// what was undone.
    pub fn finish_rollback(&mut self, key: &str, set: RollbackChangeSet) -> (p:
        RollbackResultPayload)
        ensures
            p@ == (RollbackResultPayloadView {
                success: true,
                message: "Rolled back "@ + set@.id + " ("@ + set@.tool_name + ")"@,
                changes: set@.display_changes,
            }),
            final(self).session(key@) == old(self).session(key@).undone(),
            final(self).same_sessions_but(old(self), key@),
            final(self).runs == old(self).runs,
    {
        let mut session = self.take_session(key);
        let ghost taken = *self;
        let ghost before = session.rollback_journal@;
        let ghost kept = session@;
        let _ = session.rollback_journal.pop();
        assert(before.len() > 0 ==> RollbackChangeSet::views(session.rollback_journal@)
            =~= RollbackChangeSet::views(before).drop_last());
        assert(session@ == kept.undone());
        self.put_session(key, session);
        assert forall|k: Seq<char>| k != key@ implies #[trigger] self.session(k) == old(
            self,
        ).session(k) by {
            assert(self.session(k) == taken.session(k));
        }
        let mut message = text::cat3("Rolled back ", set.id.as_str(), " (");
        message.append(set.tool_name.as_str());
        message.append(")");
        RollbackResultPayload { success: true, message, changes: set.display_changes }
    }
}

/// What is rolled back first is what the last tool did that changed files: once
/// the agent reports that a tool is done and how it can be undone, the latest
/// change set is the one of this very call, with its identifier, its tool, its
/// entries and its changes.
pub proof fn law_last_changes_are_those_of_the_last_tool(
    state: &ServerState,
    key: &str,
    r: Result<RollbackChangeSet, RollbackResultPayload>,
    before: RuntimeSessionStateView,
    id: Seq<char>,
    name: Seq<char>,
    result: Seq<char>,
    changes: Seq<FileChangeView>,
    rollback_entries: Seq<RollbackEntryView>,
)
    requires
        rollback_entries.len() > 0,
        state.session(key@) == kept_after(
            before,
            Ok(AgentEventView::ToolCompleted { id, name, result, changes, rollback_entries }),
        ),
        call_ensures(ServerState::last_changes, (state, key), r),
    ensures
        r matches Ok(set) && set@.id == id && set@.tool_name == name && set@.entries
            == rollback_entries && set@.display_changes == changes,
{
}

/// Undoing goes backwards: once what the last tool did is rolled back, the
/// client's state is as it was before that tool, so that of two tools the first
/// one is rolled back next.
pub proof fn law_rollbacks_go_backwards(
    state: &ServerState,
    key: &str,
    r: Result<RollbackChangeSet, RollbackResultPayload>,
    before: RuntimeSessionStateView,
    first: AgentEventView,
    second: AgentEventView,
)
    requires
        first is ToolCompleted,
        first->ToolCompleted_rollback_entries.len() > 0,
        second is ToolCompleted,
        second->ToolCompleted_rollback_entries.len() > 0,
        state.session(key@) == kept_after(kept_after(before, Ok(first)), Ok(second)).undone(),
        call_ensures(ServerState::last_changes, (state, key), r),
    ensures
        state.session(key@) == kept_after(before, Ok(first)),
        kept_after(before, Ok(first)).undone() == before,
        r matches Ok(set) && set@.id == first->ToolCompleted_id && set@.tool_name
            == first->ToolCompleted_name && set@.entries == first->ToolCompleted_rollback_entries
            && set@.display_changes == first->ToolCompleted_changes,
{
    let noted = kept_after(before, Ok(first));
    assert(noted.undone().rollback_journal =~= before.rollback_journal);
    assert(kept_after(noted, Ok(second)).undone().rollback_journal =~= noted.rollback_journal);
}

/// Only a tool that changed files leaves something to be rolled back.
pub proof fn law_other_events_leave_the_changes(
    before: RuntimeSessionStateView,
    event: Result<AgentEventView, Seq<char>>,
)
    requires
        !(event matches Ok(v) && v is ToolCompleted && v->ToolCompleted_rollback_entries.len()
            > 0),
    ensures
        kept_after(before, event) == before,
{
}

/// A client for which no tool changed any file, or all of whose changes are
/// undone, is told that there is nothing to roll back.
pub proof fn law_nothing_is_rolled_back_twice(
    state: &ServerState,
    key: &str,
    r: Result<RollbackChangeSet, RollbackResultPayload>,
    event: AgentEventView,
)
    requires
        event is ToolCompleted,
        state.session(key@) == RuntimeSessionStateView::nothing() || state.session(key@)
            == kept_after(RuntimeSessionStateView::nothing(), Ok(event)).undone(),
        call_ensures(ServerState::last_changes, (state, key), r),
    ensures
        r matches Err(p) && !p@.success && p@.message == NOTHING_TO_UNDO@ && p@.changes.len() == 0,
{
}

/// Whether a file is as the tool left it: it holds what the tool wrote, or is
/// still gone where the tool deleted it.
pub open spec fn untouched(entry: RollbackEntryView, found: FoundFileView) -> bool {
    if entry.kind == RollbackKind::Removed {
        !found.exists
    } else {
        &&& entry.kind == RollbackKind::Added ==> found.exists
        &&& found.content matches Ok(content) && entry.expected_after_hash == Some(
            tools::content_hash(content),
        )
    }
}

proof fn lemma_first_conflict(entries: Seq<RollbackEntryView>, found: Seq<FoundFileView>, k: int)
    requires
        found.len() == entries.len(),
        0 <= k <= entries.len(),
        forall|i: int| 0 <= i < k ==> untouched(#[trigger] entries[i], found[i]),
        k < entries.len() ==> !untouched(entries[k], found[k]),
    ensures
        k == entries.len() ==> first_conflict(entries, found) is None,
        k < entries.len() ==> first_conflict(entries, found) == conflict(entries[k], found[k])
            && conflict(entries[k], found[k]) is Some,
    decreases entries.len(),
{
    if entries.len() > 0 && k > 0 {
        assert(untouched(entries[0], found[0]));
        let rest = entries.skip(1);
        assert forall|i: int| 0 <= i < k - 1 implies untouched(
            #[trigger] rest[i],
            found.skip(1)[i],
        ) by {
            assert(rest[i] == entries[i + 1]);
        }
        if k < entries.len() {
            assert(rest[k - 1] == entries[k]);
        }
        lemma_first_conflict(rest, found.skip(1), k - 1);
    }
}

proof fn lemma_undoing_all(entries: Seq<RollbackEntryView>)
    requires
        forall|i: int|
            0 <= i < entries.len() ==> (#[trigger] entries[i]).kind == RollbackKind::Added
                || entries[i].before_content is Some,
    ensures
        undoing_all(entries).len() == entries.len(),
        forall|i: int|
            0 <= i < entries.len() ==> #[trigger] undoing_all(entries)[i] == undoing(entries[i])->0,
    decreases entries.len(),
{
    if entries.len() > 0 {
        let before = entries.drop_last();
        assert forall|i: int| 0 <= i < before.len() implies (#[trigger] before[i]).kind
            == RollbackKind::Added || before[i].before_content is Some by {
            assert(before[i] == entries[i]);
        }
        lemma_undoing_all(before);
    }
}

/// Where no file was touched since, every file of the change set is put back,
/// in the order of the set: one that was changed or deleted gets its former
/// content, and one that was added is removed.
pub proof fn law_untouched_files_are_put_back(
    set: &RollbackChangeSet,
    found: &Vec<FoundFile>,
    r: Result<Vec<FileAction>, RollbackResultPayload>,
)
    requires
        found@.len() == set.entries@.len(),
        forall|i: int|
            0 <= i < found@.len() ==> untouched(set@.entries[i], (#[trigger] found@[i])@),
        forall|i: int|
            0 <= i < set@.entries.len() ==> (#[trigger] set@.entries[i]).kind
                == RollbackKind::Added || set@.entries[i].before_content is Some,
        call_ensures(plan_rollback, (set, found), r),
    ensures
        r matches Ok(actions) && actions@.len() == set@.entries.len() && forall|i: int|
            0 <= i < actions@.len() ==> ({
                let entry = set@.entries[i];
                match (#[trigger] actions@[i])@ {
                    FileActionView::Write { path, content } => entry.kind == RollbackKind::Modified
                        && path == entry.path && Some(content) == entry.before_content,
                    FileActionView::Remove { path } => entry.kind == RollbackKind::Added && path
                        == entry.path,
                    FileActionView::Restore { path, content } => entry.kind
                        == RollbackKind::Removed && path == entry.path && Some(content)
                        == entry.before_content,
                }
            }),
{
    let entries = set@.entries;
    let files = found_views(found@);
    assert forall|i: int| 0 <= i < entries.len() implies untouched(
        #[trigger] entries[i],
        files[i],
    ) by {
        assert(files[i] == found@[i]@);
    }
    lemma_first_conflict(entries, files, entries.len() as int);
    lemma_undoing_all(entries);
    let actions = r->Ok_0;
    assert forall|i: int| 0 <= i < actions@.len() implies (#[trigger] actions@[i])@ == undoing(
        entries[i],
    )->0 by {
        assert(action_views(actions@)[i] == undoing_all(entries)[i]);
    }
}

/// Where somebody else touched a file of the change set, nothing is put back,
/// and the answer names the first such file and what is wrong with it.
pub proof fn law_first_touched_file_is_named(
    set: &RollbackChangeSet,
    found: &Vec<FoundFile>,
    r: Result<Vec<FileAction>, RollbackResultPayload>,
    k: int,
)
    requires
        found@.len() == set.entries@.len(),
        0 <= k < found@.len(),
        forall|i: int| 0 <= i < k ==> untouched(set@.entries[i], (#[trigger] found@[i])@),
        !untouched(set@.entries[k], found@[k]@),
        call_ensures(plan_rollback, (set, found), r),
    ensures
        r matches Err(p) && !p@.success && p@.changes.len() == 0 && ({
            let entry = set@.entries[k];
            p@.message == "Rollback blocked: "@ + match (entry.kind, found@[k]@.content) {
                (RollbackKind::Removed, _) => entry.path + " already exists."@,
                (RollbackKind::Added, Err(e)) => if found@[k]@.exists {
                    "failed to read "@ + entry.path + ": "@ + e
                } else {
                    entry.path + " is already missing."@
                },
                (RollbackKind::Added, Ok(_)) => if found@[k]@.exists {
                    entry.path + " changed since it was added."@
                } else {
                    entry.path + " is already missing."@
                },
                (RollbackKind::Modified, Err(e)) => "failed to read "@ + entry.path + ": "@ + e,
                (RollbackKind::Modified, Ok(_)) => entry.path
                    + " changed since the original edit."@,
            }
        }),
{
    let entries = set@.entries;
    let files = found_views(found@);
    assert forall|i: int| 0 <= i < k implies untouched(#[trigger] entries[i], files[i]) by {
        assert(files[i] == found@[i]@);
    }
    lemma_first_conflict(entries, files, k);
    reveal_strlit("Rollback blocked: ");
    reveal_strlit("failed to read ");
    reveal_strlit("Rollback blocked: failed to read ");
    assert("Rollback blocked: failed to read "@ =~= "Rollback blocked: "@ + "failed to read "@);
    let message = r->Err_0@.message;
    let path = entries[k].path;
    match found@[k]@.content {
        Err(e) => {
            assert("Rollback blocked: failed to read "@ + path + ": "@ + e =~= "Rollback blocked: "@
                + ("failed to read "@ + path + ": "@ + e));
        },
        Ok(_) => {},
    }
    assert("Rollback blocked: "@ + path + " already exists."@ =~= "Rollback blocked: "@ + (path
        + " already exists."@));
    assert("Rollback blocked: "@ + path + " is already missing."@ =~= "Rollback blocked: "@ + (path
        + " is already missing."@));
    assert("Rollback blocked: "@ + path + " changed since it was added."@
        =~= "Rollback blocked: "@ + (path + " changed since it was added."@));
    assert("Rollback blocked: "@ + path + " changed since the original edit."@
        =~= "Rollback blocked: "@ + (path + " changed since the original edit."@));
}

/// Text files by their paths.
pub type Files = Map<Seq<char>, Seq<char>>;

/// What is found in place of a file; `unread` is why a file that is not there
/// cannot be read.
pub open spec fn found_in(files: Files, path: Seq<char>, unread: Seq<char>) -> FoundFileView {
    FoundFileView {
        exists: files.contains_key(path),
        content: if files.contains_key(path) {
            Ok(files[path])
        } else {
            Err(unread)
        },
    }
}

/// What is found in place of the files of a change set.
pub open spec fn all_found_in(
    files: Files,
    entries: Seq<RollbackEntryView>,
    unread: Seq<char>,
) -> Seq<FoundFileView> {
    entries.map_values(|e: RollbackEntryView| found_in(files, e.path, unread))
}

/// The files after one step of undoing.
pub open spec fn after_action(files: Files, action: FileActionView) -> Files {
    match action {
        FileActionView::Write { path, content } => files.insert(path, content),
        FileActionView::Remove { path } => files.remove(path),
        FileActionView::Restore { path, content } => files.insert(path, content),
    }
}

/// The files after all steps of undoing.
pub open spec fn after_actions(files: Files, actions: Seq<FileActionView>) -> Files
    decreases actions.len(),
{
    if actions.len() == 0 {
        files
    } else {
        after_action(after_actions(files, actions.drop_last()), actions.last())
    }
}

/// Whether a change set is undone: from `after`, nothing is in conflict, and the
/// steps lead back to `before`.
pub open spec fn undoes(
    entries: Seq<RollbackEntryView>,
    after: Files,
    before: Files,
    unread: Seq<char>,
) -> bool {
    &&& first_conflict(entries, all_found_in(after, entries, unread)) is None
    &&& after_actions(after, undoing_all(entries)) == before
}

proof fn lemma_undoes_one(
    entry: RollbackEntryView,
    after: Files,
    before: Files,
    unread: Seq<char>,
)
    requires
        conflict(entry, found_in(after, entry.path, unread)) is None,
        undoing(entry) matches Some(a) && after_action(after, a) == before,
    ensures
        undoes(seq![entry], after, before, unread),
{
    let entries = seq![entry];
    let found = all_found_in(after, entries, unread);
    assert(found[0] == found_in(after, entry.path, unread));
    assert(first_conflict(entries.skip(1), found.skip(1)) is None);
    assert(entries.drop_last() =~= Seq::empty());
    assert(entries.last() == entry);
    let a = undoing(entry)->0;
    assert(undoing_all(entries.drop_last()) =~= Seq::empty());
    assert(undoing_all(entries) =~= seq![a]);
    assert(seq![a].drop_last() =~= Seq::empty());
    assert(seq![a].last() == a);
    assert(after_actions(after, seq![a].drop_last()) == after);
}

/// What the write tool did can be undone as long as nobody else touches the
/// file, and the files are then as they were.
pub proof fn law_writes_are_undone(
    files: Files,
    path: Seq<char>,
    content: Seq<char>,
    unread: Seq<char>,
)
    ensures
        undoes(
            tools::write_result(
                path,
                if files.contains_key(path) {
                    Some(files[path])
                } else {
                    None
                },
                content,
            ).rollback_entries,
            files.insert(path, content),
            files,
            unread,
        ),
{
    let after = files.insert(path, content);
    let before = if files.contains_key(path) {
        Some(files[path])
    } else {
        None
    };
    let entries = tools::write_result(path, before, content).rollback_entries;
    if files.contains_key(path) {
        assert(after.insert(path, files[path]) =~= files);
    } else {
        assert(after.remove(path) =~= files);
    }
    assert(entries =~= seq![entries[0]]);
    lemma_undoes_one(entries[0], after, files, unread);
}

/// What the edit tool did can be undone as long as nobody else touches the
/// file, and the files are then as they were.
pub proof fn law_edits_are_undone(
    files: Files,
    path: Seq<char>,
    content: Seq<char>,
    unread: Seq<char>,
)
    requires
        files.contains_key(path),
    ensures
        undoes(
            tools::edit_result(path, files[path], content).rollback_entries,
            files.insert(path, content),
            files,
            unread,
        ),
{
    let after = files.insert(path, content);
    let entries = tools::edit_result(path, files[path], content).rollback_entries;
    assert(after.insert(path, files[path]) =~= files);
    assert(entries =~= seq![entries[0]]);
    lemma_undoes_one(entries[0], after, files, unread);
}

/// What the delete tool did can be undone as long as nobody else touches the
/// file, and the files are then as they were.
pub proof fn law_deletions_are_undone(files: Files, path: Seq<char>, unread: Seq<char>)
    requires
        files.contains_key(path),
    ensures
        undoes(
            tools::delete_result(path, files[path]).rollback_entries,
            files.remove(path),
            files,
            unread,
        ),
{
    let after = files.remove(path);
    let entries = tools::delete_result(path, files[path]).rollback_entries;
    assert(after.insert(path, files[path]) =~= files);
    assert(entries =~= seq![entries[0]]);
    lemma_undoes_one(entries[0], after, files, unread);
}

/// A file that does not hash to what the tool left behind is not overwritten:
/// the whole change set is refused.
pub proof fn law_foreign_changes_block(
    entries: Seq<RollbackEntryView>,
    found: Seq<FoundFileView>,
    i: int,
)
    requires
        0 <= i < entries.len(),
        found.len() == entries.len(),
        entries[i].kind != RollbackKind::Removed,
        found[i].content matches Ok(content) && entries[i].expected_after_hash != Some(
            tools::content_hash(content),
        ),
    ensures
        first_conflict(entries, found) is Some,
    decreases i,
{
    if i > 0 {
        assert(entries.skip(1)[i - 1] == entries[i]);
        assert(found.skip(1)[i - 1] == found[i]);
        law_foreign_changes_block(entries.skip(1), found.skip(1), i - 1);
    }
}

/// A file that came back after it was deleted is not overwritten: the whole
/// change set is refused.
pub proof fn law_returned_files_block(
    entries: Seq<RollbackEntryView>,
    found: Seq<FoundFileView>,
    i: int,
)
    requires
        0 <= i < entries.len(),
        found.len() == entries.len(),
        entries[i].kind == RollbackKind::Removed,
        found[i].exists,
    ensures
        first_conflict(entries, found) is Some,
    decreases i,
{
    if i > 0 {
        assert(entries.skip(1)[i - 1] == entries[i]);
        assert(found.skip(1)[i - 1] == found[i]);
        law_returned_files_block(entries.skip(1), found.skip(1), i - 1);
    }
}

/// A file that is gone, or cannot be read any more, is not put back: the whole
/// change set is refused.
pub proof fn law_missing_files_block(
    entries: Seq<RollbackEntryView>,
    found: Seq<FoundFileView>,
    i: int,
)
    requires
        0 <= i < entries.len(),
        found.len() == entries.len(),
        entries[i].kind != RollbackKind::Removed,
        found[i].content is Err || entries[i].kind == RollbackKind::Added && !found[i].exists,
    ensures
        first_conflict(entries, found) is Some,
    decreases i,
{
    if i > 0 {
        assert(entries.skip(1)[i - 1] == entries[i]);
        assert(found.skip(1)[i - 1] == found[i]);
        law_missing_files_block(entries.skip(1), found.skip(1), i - 1);
    }
}

/// Where a step of undoing fails, the answer says so, names the file or the
/// directory, and gives the error.
pub proof fn law_failed_steps_are_named(
    action: &FileAction,
    step: &FailedStep,
    e: &str,
    p: RollbackResultPayload,
)
    requires
        call_ensures(step_failed, (action, step, e), p),
    ensures
        !p@.success,
        p@.changes.len() == 0,
        match (step@, action@) {
            (FailedStepView::Directory(dir), _) => p@.message == "Rollback failed creating "@ + dir
                + ": "@ + e@,
            (FailedStepView::File, FileActionView::Write { path, .. }) => p@.message
                == "Rollback failed writing "@ + path + ": "@ + e@,
            (FailedStepView::File, FileActionView::Remove { path }) => p@.message
                == "Rollback failed removing "@ + path + ": "@ + e@,
            (FailedStepView::File, FileActionView::Restore { path, .. }) => p@.message
                == "Rollback failed restoring "@ + path + ": "@ + e@,
        },
{
}

/// Once the agent of a run reports that a tool changed files, what can be rolled
/// back for the client is what this very tool did.
pub proof fn law_reported_changes_can_be_rolled_back(
    state: &mut ServerState,
    run_id: &str,
    key: &str,
    event: AgentEvent,
    p: RunProgress,
    after: &ServerState,
    r: Result<RollbackChangeSet, RollbackResultPayload>,
)
    requires
        event is ToolCompleted,
        event->ToolCompleted_rollback_entries@.len() > 0,
        call_ensures(ServerState::run_event, (state, run_id, key, Ok(event)), p),
        call_ensures(ServerState::last_changes, (after, key), r),
    ensures
        *after == *final(state) ==> r is Ok && r->Ok_0.id@ == event->ToolCompleted_id@
            && r->Ok_0.tool_name@ == event->ToolCompleted_name@ && RollbackEntry::views(
            r->Ok_0.entries@,
        ) == RollbackEntry::views(event->ToolCompleted_rollback_entries@) && FileChange::views(
            r->Ok_0.display_changes@,
        ) == FileChange::views(event->ToolCompleted_changes@),
        final(state).session(key@) == kept_after(old(state).session(key@), Ok(event@)),
        forall|other: Seq<char>|
            other != key@ ==> #[trigger] final(state).session(other) == old(state).session(other),
{
    assert(event@->ToolCompleted_rollback_entries.len()
        == event->ToolCompleted_rollback_entries@.len());
}

/// After a rollback the client is told what was rolled back, and what can be
/// rolled back next is what the tool before did.
pub proof fn law_the_tool_before_is_rolled_back_next(
    state: &mut ServerState,
    key: &str,
    set: RollbackChangeSet,
    p: RollbackResultPayload,
    before: RuntimeSessionStateView,
    first: AgentEvent,
    second: AgentEvent,
    after: &ServerState,
    r: Result<RollbackChangeSet, RollbackResultPayload>,
)
    requires
        first is ToolCompleted,
        first->ToolCompleted_rollback_entries@.len() > 0,
        second is ToolCompleted,
        second->ToolCompleted_rollback_entries@.len() > 0,
        old(state).session(key@) == kept_after(kept_after(before, Ok(first@)), Ok(second@)),
        call_ensures(ServerState::finish_rollback, (state, key, set), p),
        call_ensures(ServerState::last_changes, (after, key), r),
    ensures
        p.success,
        p.message@ == "Rolled back "@ + set.id@ + " ("@ + set.tool_name@ + ")"@,
        FileChange::views(p.changes@) == FileChange::views(set.display_changes@),
        *after == *final(state) ==> r is Ok && r->Ok_0.id@ == first->ToolCompleted_id@
            && r->Ok_0.tool_name@ == first->ToolCompleted_name@ && RollbackEntry::views(
            r->Ok_0.entries@,
        ) == RollbackEntry::views(first->ToolCompleted_rollback_entries@),
        forall|other: Seq<char>|
            other != key@ ==> #[trigger] final(state).session(other) == old(state).session(other),
{
    assert(first@->ToolCompleted_rollback_entries.len()
        == first->ToolCompleted_rollback_entries@.len());
    assert(second@->ToolCompleted_rollback_entries.len()
        == second->ToolCompleted_rollback_entries@.len());
    if *after == *final(state) {
        law_rollbacks_go_backwards(after, key, r, before, first@, second@);
    }
}

} // verus!
