//! The tools that the model can call: how their arguments are read, and what
//! they report. Files and processes are handled outside; what is found there
//! comes in as plain values.

pub mod defs;
pub mod laws;
pub mod subagent;

use crate::agent;
use crate::history;
use crate::json;
use crate::json::{Json, JsonView};
use crate::llm::{
    RollbackEntry, RollbackEntryView, RollbackKind, ToolExecutionResult, ToolExecutionResultView,
};
use crate::paths;
use crate::protocol::{
    DiffLine, DiffLineKind, DiffLineView, FileChange, FileChangeKind, FileChangeView,
};
use crate::text;
use crate::tools::defs::{
    BashTool, DeleteTool, EditTool, FinishTaskTool, GlobTool, GrepTool, ReadTool, SubagentTool,
    ToolContext, UseSkillTool, WriteTool,
};
use vstd::prelude::*;
use vstd::string::*;

verus! {

/// How many bytes of output a tool may hand to the model.
pub const MAX_OUTPUT_BYTES: usize = 51200;

/// How many lines of a diff are shown for a file.
pub const MAX_DIFF_LINES_PER_FILE: usize = 40;

/// How many unchanged lines a diff shows around a change.
pub const DIFF_CONTEXT_LINES: usize = 3;

// ---- output ----

/// Output as it is handed to the model: what is too long is cut, with a note on
/// its whole length.
pub open spec fn bounded_output(output: Seq<char>) -> Seq<char> {
    if text::byte_len(output) <= MAX_OUTPUT_BYTES {
        output
    } else {
        text::truncated(output, MAX_OUTPUT_BYTES as nat) + "\n\n[output truncated — "@
            + text::decimal(text::byte_len(output)) + " bytes total]"@
    }
}

/// Output as it is handed to the model.
pub fn truncate_output(output: String) -> (s: String)
    ensures
        s@ == bounded_output(output@),
{
    let total: usize = text::len_bytes(output.as_str());
    if total <= MAX_OUTPUT_BYTES {
        return output;
    }
    let mut s = text::cat2(
        agent::safe_truncate(output.as_str(), MAX_OUTPUT_BYTES),
        "\n\n[output truncated — ",
    );
    s.append(text::decimal_of(total as u64).as_str());
    s.append(" bytes total]");
    s
}

/// The result of a tool that changed no file.
pub open spec fn plain_result(output: Seq<char>) -> ToolExecutionResultView {
    ToolExecutionResultView { output, changes: Seq::empty(), rollback_entries: Seq::empty() }
}

/// The result of a tool that changed no file.
pub fn result_no_changes(output: String) -> (r: ToolExecutionResult)
    ensures
        r@ == plain_result(output@),
{
    let r = ToolExecutionResult { output, changes: Vec::new(), rollback_entries: Vec::new() };
    assert(r@.changes =~= Seq::empty());
    assert(r@.rollback_entries =~= Seq::empty());
    r
}

// ---- changes of files ----

/// The hash that `std::hash::DefaultHasher`, as `new` makes it, gives a text.
pub uninterp spec fn content_hash(content: Seq<char>) -> u64;

/// Hashes a text with `std::hash::DefaultHasher`, which `new` makes without a
/// seed: the hash is a function of the text.
#[verifier::external_body]
pub(crate) fn content_hash64(content: &str) -> (h: u64)
    ensures
        h == content_hash(content@),
{
    let mut hasher = std::collections::hash_map::DefaultHasher::new();
    std::hash::Hash::hash(content, &mut hasher);
    std::hash::Hasher::finish(&hasher)
}

/// The changed lines that `similar::TextDiff::from_lines` finds between two
/// texts, in groups with up to `context` unchanged lines around them, one
/// after the other, each as it is displayed.
pub uninterp spec fn line_changes(
    before: Seq<char>,
    after: Seq<char>,
    context: usize,
) -> Seq<DiffLineView>;

/// Calls `similar::TextDiff::from_lines`, and on its result `grouped_ops` and
/// `iter_changes`. The changes are a function of the texts and of `context`,
/// which is doubled on the way.
#[verifier::external_body]
fn diff_changes(before: &str, after: &str, context: usize) -> (changes: Vec<DiffLine>)
    requires
        context <= usize::MAX / 2,
    ensures
        DiffLine::views(changes@) == line_changes(before@, after@, context),
{
    let diff = similar::TextDiff::from_lines(before, after);
    let groups = diff.grouped_ops(context);
    let ops = groups.iter().flatten();
    ops.flat_map(|op| diff.iter_changes(op)).map(|change| DiffLine {
        kind: match change.tag() {
            similar::ChangeTag::Delete => DiffLineKind::Removed,
            similar::ChangeTag::Insert => DiffLineKind::Added,
            similar::ChangeTag::Equal => DiffLineKind::Context,
        },
        content: change.to_string(),
    }).collect()
}

/// A line without the line feed at its end.
pub open spec fn without_line_feed(s: Seq<char>) -> Seq<char> {
    if s.len() > 0 && s.last() == '\n' {
        s.drop_last()
    } else {
        s
    }
}

/// How changed lines are shown: at most [`MAX_DIFF_LINES_PER_FILE`] of them,
/// each without its line feed.
pub open spec fn shown_lines(changes: Seq<DiffLineView>) -> Seq<DiffLineView> {
    let shown = if changes.len() > MAX_DIFF_LINES_PER_FILE {
        changes.take(MAX_DIFF_LINES_PER_FILE as int)
    } else {
        changes
    };
    shown.map_values(
        |l: DiffLineView| DiffLineView { kind: l.kind, content: without_line_feed(l.content) },
    )
}

/// A modified file with these changed lines.
pub open spec fn modified_change(path: Seq<char>, changes: Seq<DiffLineView>) -> FileChangeView {
    FileChangeView {
        path,
        kind: FileChangeKind::Modified,
        diff_lines: shown_lines(changes),
        truncated: changes.len() > MAX_DIFF_LINES_PER_FILE,
    }
}

/// How the modification of a file is shown; a file that stayed the same is
/// not shown.
pub open spec fn change_of(path: Seq<char>, before: Seq<char>, after: Seq<char>) -> Option<
    FileChangeView,
> {
    if before == after {
        None
    } else {
        Some(modified_change(path, line_changes(before, after, DIFF_CONTEXT_LINES)))
    }
}

fn strip_line_feed(s: &str) -> (r: String)
    ensures
        r@ == without_line_feed(s@),
{
    let v = text::chars_of(s);
    if v.len() > 0 && v[v.len() - 1] == '\n' {
        let r = text::string_range(&v, 0, v.len() - 1);
        assert(v@.subrange(0, v@.len() - 1) =~= v@.drop_last());
        r
    } else {
        s.to_owned()
    }
}

/// How a modified file with these changed lines is shown.
pub fn file_change_of(path: &str, changes: &Vec<DiffLine>) -> (c: FileChange)
    ensures
        c@ == modified_change(path@, DiffLine::views(changes@)),
{
    let mut diff_lines: Vec<DiffLine> = Vec::new();
    let mut i: usize = 0;
    while i < changes.len() && i < MAX_DIFF_LINES_PER_FILE
        invariant
            i <= changes.len(),
            i <= MAX_DIFF_LINES_PER_FILE,
            diff_lines.len() == i,
            forall|k: int|
                0 <= k < i ==> (#[trigger] diff_lines@[k])@ == (DiffLineView {
                    kind: changes@[k]@.kind,
                    content: without_line_feed(changes@[k]@.content),
                }),
        decreases changes.len() - i,
    {
        let line = &changes[i];
        diff_lines.push(
            DiffLine { kind: line.kind, content: strip_line_feed(line.content.as_str()) },
        );
        i += 1;
    }
    assert(DiffLine::views(diff_lines@) =~= shown_lines(DiffLine::views(changes@)));
    FileChange {
        path: path.to_owned(),
        kind: FileChangeKind::Modified,
        diff_lines,
        truncated: changes.len() > MAX_DIFF_LINES_PER_FILE,
    }
}

/// How the modification of a file is shown.
pub fn compute_modified_file_change(path: &str, before: &str, after: &str) -> (c: Option<
    FileChange,
>)
    ensures
        FileChange::opt_view(c) == change_of(path@, before@, after@),
{
    if text::same(before, after) {
        return None;
    }
    let changes = diff_changes(before, after, DIFF_CONTEXT_LINES);
    Some(file_change_of(path, &changes))
}

/// A file that was created or deleted.
pub open spec fn whole_file_change(path: Seq<char>, kind: FileChangeKind) -> FileChangeView {
    FileChangeView { path, kind, diff_lines: Seq::empty(), truncated: false }
}

fn one_change(change: FileChange) -> (v: Vec<FileChange>)
    ensures
        FileChange::views(v@) == seq![change@],
{
    let mut v: Vec<FileChange> = Vec::new();
    v.push(change);
    assert(FileChange::views(v@) =~= seq![change@]);
    v
}

fn no_changes() -> (v: Vec<FileChange>)
    ensures
        FileChange::views(v@) == Seq::<FileChangeView>::empty(),
{
    let v: Vec<FileChange> = Vec::new();
    assert(FileChange::views(v@) =~= Seq::<FileChangeView>::empty());
    v
}

fn one_entry(entry: RollbackEntry) -> (v: Vec<RollbackEntry>)
    ensures
        RollbackEntry::views(v@) == seq![entry@],
{
    let mut v: Vec<RollbackEntry> = Vec::new();
    v.push(entry);
    assert(RollbackEntry::views(v@) =~= seq![entry@]);
    v
}

fn whole_change(path: &str, kind: FileChangeKind) -> (c: FileChange)
    ensures
        c@ == whole_file_change(path@, kind),
{
    let diff_lines: Vec<DiffLine> = Vec::new();
    assert(DiffLine::views(diff_lines@) =~= Seq::empty());
    FileChange { path: path.to_owned(), kind, diff_lines, truncated: false }
}

// ---- arguments ----

/// The string that the arguments hold under `key`, or else this error.
pub open spec fn required(args: JsonView, key: Seq<char>, missing: Seq<char>) -> Result<
    Seq<char>,
    Seq<char>,
> {
    match json::json_text(args, key) {
        Some(s) => Ok(s),
        None => Err(missing),
    }
}

fn required_text(args: &Json, key: &str, missing: &str) -> (r: Result<String, String>)
    ensures
        text::result_view(r) == required(args@, key@, missing@),
{
    match args.text(key) {
        Some(s) => Ok(s),
        None => Err(missing.to_owned()),
    }
}

/// The error for a path outside the workspace.
pub open spec fn outside_error(path: Seq<char>, workspace: Seq<char>) -> Seq<char> {
    "Path '"@ + path + "' is outside the workspace '"@ + workspace + "'"@
}

/// Whether a path lies in a workspace and cannot lead out of it: it is at or
/// below it and climbs nowhere.
pub open spec fn stays_within(path: Seq<char>, workspace: Seq<char>) -> bool {
    paths::within(path, workspace) && !paths::climbs(path)
}

/// The canonical form of a path, or the error where it does not stay in the
/// workspace.
pub open spec fn checked_path(
    resolved: Seq<char>,
    workspace: Seq<char>,
    canonical: Seq<char>,
    canonical_workspace: Seq<char>,
) -> Result<Seq<char>, Seq<char>> {
    if stays_within(canonical, canonical_workspace) {
        Ok(canonical)
    } else {
        Err(outside_error(resolved, workspace))
    }
}

/// A path that is accepted leads nowhere out of the workspace, however far it
/// is followed.
pub proof fn law_accepted_paths_stay_within(
    resolved: Seq<char>,
    workspace: Seq<char>,
    canonical: Seq<char>,
    canonical_workspace: Seq<char>,
)
    requires
        checked_path(resolved, workspace, canonical, canonical_workspace) is Ok,
    ensures
        checked_path(resolved, workspace, canonical, canonical_workspace) == Ok::<
            Seq<char>,
            Seq<char>,
        >(canonical),
        forall|n: int|
            paths::components(canonical_workspace).len() <= n <= paths::components(canonical).len()
                ==> text::starts_with(
                #[trigger] paths::followed(paths::components(canonical).take(n)),
                paths::components(canonical_workspace),
            ),
{
    let parts = paths::components(canonical);
    let base = paths::components(canonical_workspace);
    assert forall|n: int| base.len() <= n <= parts.len() implies text::starts_with(
        #[trigger] paths::followed(parts.take(n)),
        base,
    ) by {
        let some = parts.take(n);
        assert(!some.contains(".."@)) by {
            if some.contains(".."@) {
                let i = choose|i: int| 0 <= i < some.len() && some[i] == ".."@;
                assert(parts[i] == ".."@);
            }
        }
        paths::lemma_followed(some);
        assert(some.take(base.len() as int) =~= parts.take(base.len() as int));
    }
}

/// Checks that a path lies in the workspace, by their canonical forms; the
/// canonical form of the path is returned. A form that climbs is refused: part
/// of it is not there yet, and nobody knows where it leads.
pub fn validate_path_in_workspace(
    resolved: &str,
    workspace: &str,
    canonical: String,
    canonical_workspace: &str,
) -> (r: Result<String, String>)
    ensures
        text::result_view(r) == checked_path(
            resolved@,
            workspace@,
            canonical@,
            canonical_workspace@,
        ),
        r matches Ok(p) ==> paths::within(p@, canonical_workspace@) && !paths::components(
            p@,
        ).contains(".."@),
{
    if paths::is_within(canonical.as_str(), canonical_workspace) && !paths::is_climbing(
        canonical.as_str(),
    ) {
        Ok(canonical)
    } else {
        let mut e = text::cat3("Path '", resolved, "' is outside the workspace '");
        e.append(workspace);
        e.append("'");
        Err(e)
    }
}

/// Checks that a path lies in the workspace, given the nearest part of it that
/// is there, and the canonical forms of that part and of the workspace. What is
/// not there yet is appended as it is.
pub fn path_in_workspace(
    resolved: &str,
    ancestor: &str,
    canonical_ancestor: &str,
    workspace: &str,
    canonical_workspace: &str,
) -> (r: Result<String, String>)
    ensures
        text::result_view(r) == checked_path(
            resolved@,
            workspace@,
            paths::moved(resolved@, ancestor@, canonical_ancestor@),
            canonical_workspace@,
        ),
        r matches Ok(p) ==> paths::within(p@, canonical_workspace@) && !paths::components(
            p@,
        ).contains(".."@),
        ancestor@ == resolved@ ==> text::result_view(r) == checked_path(
            resolved@,
            workspace@,
            canonical_ancestor@,
            canonical_workspace@,
        ),
{
    let canonical = paths::move_path(resolved, ancestor, canonical_ancestor);
    validate_path_in_workspace(resolved, workspace, canonical, canonical_workspace)
}

impl ToolContext {
    /// A path as seen from the workspace.
    pub fn resolve(&self, path: &str) -> (s: String)
        ensures
            s@ == paths::joined(self.workspace@, path@),
    {
        paths::join_path(self.workspace.as_str(), path)
    }
}

// ---- read ----

/// What is to be read.
pub struct ReadPlan {
    pub path: String,
    /// The first line, counted from one; zero stands for the first line too.
    pub offset: u64,
    pub limit: Option<u64>,
}

/// Some of the lines of a text.
pub open spec fn selected_lines(content: Seq<char>, offset: u64, limit: Option<u64>) -> Seq<
    Seq<char>,
> {
    let lines = text::lines(content);
    let skip = if offset == 0 {
        0
    } else {
        offset - 1
    };
    let start = if skip < lines.len() {
        skip
    } else {
        lines.len() as int
    };
    let end = match limit {
        Some(n) => if start + n < lines.len() {
            start + n
        } else {
            lines.len() as int
        },
        None => lines.len() as int,
    };
    lines.subrange(start, end)
}

/// What is read of a text.
pub open spec fn read_text(content: Seq<char>, offset: u64, limit: Option<u64>) -> Seq<char> {
    if offset == 0 && limit is None {
        content
    } else {
        text::join(selected_lines(content, offset, limit), "\n"@)
    }
}

impl ReadTool {
    /// What the arguments ask for.
    pub fn plan(&self, args: &Json) -> (r: Result<ReadPlan, String>)
        ensures
            match required(args@, "file_path"@, "Missing file_path"@) {
                Ok(path) => r matches Ok(p) && p.path@ == paths::joined(
                    self.ctx.workspace@,
                    path,
                ) && p.offset == (match json::json_uint(args@, "offset"@) {
                    Some(n) => n,
                    None => 0,
                }) && p.limit == json::json_uint(args@, "limit"@),
                Err(missing) => r matches Err(e) && e@ == missing,
            },
    {
        match required_text(args, "file_path", "Missing file_path") {
            Ok(path) => Ok(
                ReadPlan {
                    path: self.ctx.resolve(path.as_str()),
                    offset: match args.uint("offset") {
                        Some(n) => n,
                        None => 0,
                    },
                    limit: args.uint("limit"),
                },
            ),
            Err(e) => Err(e),
        }
    }

    /// What is reported of the content of the file.
    pub fn report(content: String, offset: u64, limit: Option<u64>) -> (r: ToolExecutionResult)
        ensures
            r@ == plain_result(read_text(content@, offset, limit)),
    {
        if offset == 0 && limit.is_none() {
            return result_no_changes(content);
        }
        let lines = text::lines_of(content.as_str());
        let skip: u64 = if offset == 0 {
            0
        } else {
            offset - 1
        };
        let total: u64 = lines.len() as u64;
        let start: usize = if skip < total {
            skip as usize
        } else {
            lines.len()
        };
        let end: usize = match limit {
            Some(n) => if n < total - start as u64 {
                start + n as usize
            } else {
                lines.len()
            },
            None => lines.len(),
        };
        let ghost all = text::lines(content@);
        let mut picked: Vec<String> = Vec::new();
        let mut i: usize = start;
        while i < end
            invariant
                start <= i <= end <= lines.len(),
                text::views(lines@) == all,
                picked.len() == i - start,
                forall|k: int| 0 <= k < i - start ==> (#[trigger] picked@[k])@ == all[start + k],
            decreases end - i,
        {
            assert(all[i as int] == lines@[i as int]@) by {
                assert(all[i as int] == text::views(lines@)[i as int]);
            }
            picked.push(lines[i].clone());
            i += 1;
        }
        assert(text::views(picked@) =~= selected_lines(content@, offset, limit));
        result_no_changes(text::join_strs(&picked, "\n"))
    }
}

// ---- glob ----

/// What is to be searched for.
pub struct GlobPlan {
    /// The pattern, as seen from the workspace.
    pub pattern: String,
    /// The part of it without a wildcard, which must lie in the workspace.
    pub prefix: String,
}

/// Those of some paths that lie at or below `base`.
pub open spec fn paths_within(found: Seq<Seq<char>>, base: Seq<char>) -> Seq<Seq<char>>
    decreases found.len(),
{
    if found.len() == 0 {
        Seq::empty()
    } else {
        let before = paths_within(found.drop_last(), base);
        if paths::within(found.last(), base) {
            before.push(found.last())
        } else {
            before
        }
    }
}

/// Whatever a pattern finds, only paths at or below the workspace are reported.
pub proof fn law_reported_paths_lie_within(found: Seq<Seq<char>>, base: Seq<char>, path: Seq<char>)
    ensures
        paths_within(found, base).contains(path) <==> found.contains(path) && paths::within(
            path,
            base,
        ),
    decreases found.len(),
{
    if found.len() > 0 {
        let last = found.last();
        let before = paths_within(found.drop_last(), base);
        law_reported_paths_lie_within(found.drop_last(), base, path);
        assert(found =~= found.drop_last().push(last));
        vstd::seq_lib::lemma_seq_contains_after_push(found.drop_last(), last, path);
        vstd::seq_lib::lemma_seq_contains_after_push(before, last, path);
    }
}

/// What is reported of the paths that were found.
pub open spec fn glob_text(found: Seq<Seq<char>>, base: Seq<char>) -> Seq<char> {
    let kept = paths_within(found, base);
    if kept.len() == 0 {
        "No matches found."@
    } else {
        text::join(kept, "\n"@)
    }
}

impl GlobTool {
    /// What the arguments ask for.
    pub fn plan(&self, args: &Json) -> (r: Result<GlobPlan, String>)
        ensures
            match required(args@, "pattern"@, "Missing pattern"@) {
                Ok(pattern) => r matches Ok(p) && p.pattern@ == paths::joined(
                    self.ctx.workspace@,
                    pattern,
                ) && p.prefix@ == paths::path_of(
                    paths::before_wildcard(
                        paths::components(paths::joined(self.ctx.workspace@, pattern)),
                    ),
                ),
                Err(missing) => r matches Err(e) && e@ == missing,
            },
    {
        match required_text(args, "pattern", "Missing pattern") {
            Ok(pattern) => {
                let pattern = self.ctx.resolve(pattern.as_str());
                let prefix = paths::static_glob_prefix(pattern.as_str());
                Ok(GlobPlan { pattern, prefix })
            },
            Err(e) => Err(e),
        }
    }

    /// What is reported of the canonical paths that were found: those in the
    /// workspace, whose canonical form is `base`.
    pub fn report(found: &Vec<String>, base: &str) -> (r: ToolExecutionResult)
        ensures
            r@ == plain_result(glob_text(text::views(found@), base@)),
    {
        let ghost all = text::views(found@);
        let mut kept: Vec<String> = Vec::new();
        let mut i: usize = 0;
        assert(text::views(kept@) =~= paths_within(all.take(0), base@));
        while i < found.len()
            invariant
                i <= found.len(),
                all == text::views(found@),
                text::views(kept@) == paths_within(all.take(i as int), base@),
            decreases found.len() - i,
        {
            assert(all.take(i + 1).drop_last() =~= all.take(i as int));
            assert(all.take(i + 1).last() == found@[i as int]@);
            let ghost prior = text::views(kept@);
            if paths::is_within(found[i].as_str(), base) {
                kept.push(found[i].clone());
                assert(text::views(kept@) =~= prior.push(found@[i as int]@));
            }
            i += 1;
        }
        assert(all.take(all.len() as int) =~= all);
        if kept.len() == 0 {
            return result_no_changes("No matches found.".to_owned());
        }
        result_no_changes(text::join_strs(&kept, "\n"))
    }
}

// ---- grep ----

/// The program that searches.
#[derive(Debug, Clone, Copy, PartialEq, Eq, Structural)]
pub enum GrepBackend {
    Ripgrep,
    Grep,
}

/// The program that searches: ripgrep where there is one.
pub fn preferred_grep_backend_with<F: Fn(&str) -> bool>(is_available: F) -> (b: GrepBackend)
    requires
        forall|name: &str| call_requires(is_available, (name,)),
    ensures
        exists|name: &str, found: bool| #[trigger]
            call_ensures(is_available, (name,), found) && name@ == "rg"@ && b == (if found {
                GrepBackend::Ripgrep
            } else {
                GrepBackend::Grep
            }),
{
    let found = is_available("rg");
    if found {
        GrepBackend::Ripgrep
    } else {
        GrepBackend::Grep
    }
}

/// What is to be searched for, and where.
pub struct GrepPlan {
    pub pattern: String,
    pub dir: String,
    pub files: Option<String>,
}

/// The program to run and its arguments.
pub open spec fn grep_words(
    backend: GrepBackend,
    pattern: Seq<char>,
    dir: Seq<char>,
    files: Option<Seq<char>>,
) -> Seq<Seq<char>> {
    match backend {
        GrepBackend::Ripgrep => {
            let start = seq!["rg"@, "--line-number"@, "--with-filename"@, "-i"@, pattern, dir];
            match files {
                Some(f) => start.push("--glob"@).push(f),
                None => start,
            }
        },
        GrepBackend::Grep => {
            let start = seq!["grep"@, "-rn"@, "-i"@, "-E"@, pattern];
            match files {
                Some(f) => start.push("--include"@).push(f).push(dir),
                None => start.push(dir),
            }
        },
    }
}

impl GrepTool {
    /// What the arguments ask for.
    pub fn plan(&self, args: &Json) -> (r: Result<GrepPlan, String>)
        ensures
            match required(args@, "pattern"@, "Missing pattern"@) {
                Ok(pattern) => r matches Ok(p) && p.pattern@ == pattern && p.dir@ == (
                match json::json_text(args@, "path"@) {
                    Some(path) => paths::joined(self.ctx.workspace@, path),
                    None => self.ctx.workspace@,
                }) && text::opt_view(p.files) == json::json_text(args@, "include"@),
                Err(missing) => r matches Err(e) && e@ == missing,
            },
    {
        match required_text(args, "pattern", "Missing pattern") {
            Ok(pattern) => Ok(
                GrepPlan {
                    pattern,
                    dir: match args.text("path") {
                        Some(path) => self.ctx.resolve(path.as_str()),
                        None => self.ctx.workspace.clone(),
                    },
                    files: args.text("include"),
                },
            ),
            Err(e) => Err(e),
        }
    }

    /// The program to run and its arguments.
    pub fn command(
        backend: GrepBackend,
        pattern: &str,
        dir: &str,
        files: &Option<String>,
    ) -> (words: Vec<String>)
        ensures
            text::views(words@) == grep_words(backend, pattern@, dir@, text::opt_view(*files)),
    {
        let mut words: Vec<String> = Vec::new();
        match backend {
            GrepBackend::Ripgrep => {
                words.push("rg".to_owned());
                words.push("--line-number".to_owned());
                words.push("--with-filename".to_owned());
                words.push("-i".to_owned());
                words.push(pattern.to_owned());
                words.push(dir.to_owned());
                match files {
                    Some(f) => {
                        words.push("--glob".to_owned());
                        words.push(f.clone());
                    },
                    None => {},
                }
            },
            GrepBackend::Grep => {
                words.push("grep".to_owned());
                words.push("-rn".to_owned());
                words.push("-i".to_owned());
                words.push("-E".to_owned());
                words.push(pattern.to_owned());
                match files {
                    Some(f) => {
                        words.push("--include".to_owned());
                        words.push(f.clone());
                    },
                    None => {},
                }
                words.push(dir.to_owned());
            },
        }
        assert(text::views(words@) =~= grep_words(
            backend,
            pattern@,
            dir@,
            text::opt_view(*files),
        ));
        words
    }

    /// What is reported of the output of the program.
    pub fn report(stdout: String) -> (r: ToolExecutionResult)
        ensures
            r@ == plain_result(
                if stdout@.len() == 0 {
                    "No matches found."@
                } else {
                    bounded_output(stdout@)
                },
            ),
    {
        if stdout.as_str().is_empty() {
            return result_no_changes("No matches found.".to_owned());
        }
        result_no_changes(truncate_output(stdout))
    }
}

// ---- write ----

/// What is to be written, and where.
pub struct WritePlan {
    pub path: String,
    pub content: String,
}

/// What is reported of a file that was written, and how it is undone.
pub open spec fn write_result(
    path: Seq<char>,
    before: Option<Seq<char>>,
    content: Seq<char>,
) -> ToolExecutionResultView {
    ToolExecutionResultView {
        output: "Written "@ + text::decimal(text::byte_len(content)) + " bytes to "@ + path,
        changes: match before {
            Some(b) => match change_of(path, b, content) {
                Some(c) => seq![c],
                None => Seq::empty(),
            },
            None => seq![whole_file_change(path, FileChangeKind::Added)],
        },
        rollback_entries: seq![
            RollbackEntryView {
                path,
                kind: if before is Some {
                    RollbackKind::Modified
                } else {
                    RollbackKind::Added
                },
                before_content: before,
                expected_after_hash: Some(content_hash(content)),
            },
        ],
    }
}

impl WriteTool {
    /// What the arguments ask for.
    pub fn plan(&self, args: &Json) -> (r: Result<WritePlan, String>)
        ensures
            match (
                required(args@, "file_path"@, "Missing file_path"@),
                required(args@, "content"@, "Missing content"@),
            ) {
                (Ok(path), Ok(content)) => r matches Ok(p) && p.path@ == paths::joined(
                    self.ctx.workspace@,
                    path,
                ) && p.content@ == content,
                (Err(missing), _) => r matches Err(e) && e@ == missing,
                (_, Err(missing)) => r matches Err(e) && e@ == missing,
            },
    {
        let path = match required_text(args, "file_path", "Missing file_path") {
            Ok(path) => path,
            Err(e) => {
                return Err(e);
            },
        };
        match required_text(args, "content", "Missing content") {
            Ok(content) => Ok(WritePlan { path: self.ctx.resolve(path.as_str()), content }),
            Err(e) => Err(e),
        }
    }

    /// What is reported of the file after it was written, where `before` is
    /// what it held if it was there.
    pub fn report(path: &str, before: Option<String>, content: &str) -> (r: ToolExecutionResult)
        ensures
            r@ == write_result(path@, text::opt_view(before), content@),
    {
        let mut output = text::cat3(
            "Written ",
            text::decimal_of(text::len_bytes(content) as u64).as_str(),
            " bytes to ",
        );
        output.append(path);
        let expected_after_hash: Option<u64> = Some(content_hash64(content));
        match before {
            Some(b) => {
                let changes = match compute_modified_file_change(path, b.as_str(), content) {
                    Some(c) => one_change(c),
                    None => no_changes(),
                };
                let entry = RollbackEntry {
                    path: path.to_owned(),
                    kind: RollbackKind::Modified,
                    before_content: Some(b),
                    expected_after_hash,
                };
                ToolExecutionResult { output, changes, rollback_entries: one_entry(entry) }
            },
            None => {
                let entry = RollbackEntry {
                    path: path.to_owned(),
                    kind: RollbackKind::Added,
                    before_content: None,
                    expected_after_hash,
                };
                ToolExecutionResult {
                    output,
                    changes: one_change(whole_change(path, FileChangeKind::Added)),
                    rollback_entries: one_entry(entry),
                }
            },
        }
    }
}

// ---- edit ----

/// What is to be replaced, and where.
pub struct EditPlan {
    pub path: String,
    pub old: String,
    pub new: String,
}

/// What is reported of a file that was edited, and how it is undone.
pub open spec fn edit_result(
    path: Seq<char>,
    before: Seq<char>,
    after: Seq<char>,
) -> ToolExecutionResultView {
    ToolExecutionResultView {
        output: "Edited "@ + path,
        changes: match change_of(path, before, after) {
            Some(c) => seq![c],
            None => Seq::empty(),
        },
        rollback_entries: seq![
            RollbackEntryView {
                path,
                kind: RollbackKind::Modified,
                before_content: Some(before),
                expected_after_hash: Some(content_hash(after)),
            },
        ],
    }
}

impl EditTool {
    /// What the arguments ask for.
    pub fn plan(&self, args: &Json) -> (r: Result<EditPlan, String>)
        ensures
            match (
                required(args@, "file_path"@, "Missing file_path"@),
                required(args@, "old_string"@, "Missing old_string"@),
                required(args@, "new_string"@, "Missing new_string"@),
            ) {
                (Ok(path), Ok(old), Ok(new)) => r matches Ok(p) && p.path@ == paths::joined(
                    self.ctx.workspace@,
                    path,
                ) && p.old@ == old && p.new@ == new,
                (Err(missing), _, _) => r matches Err(e) && e@ == missing,
                (_, Err(missing), _) => r matches Err(e) && e@ == missing,
                (_, _, Err(missing)) => r matches Err(e) && e@ == missing,
            },
    {
        let path = match required_text(args, "file_path", "Missing file_path") {
            Ok(path) => path,
            Err(e) => {
                return Err(e);
            },
        };
        let old = match required_text(args, "old_string", "Missing old_string") {
            Ok(old) => old,
            Err(e) => {
                return Err(e);
            },
        };
        match required_text(args, "new_string", "Missing new_string") {
            Ok(new) => Ok(EditPlan { path: self.ctx.resolve(path.as_str()), old, new }),
            Err(e) => Err(e),
        }
    }

    /// The content of the file with the first `old` replaced by `new`; an error
    /// where there is none.
    pub fn edited(path: &str, content: &str, old: &str, new: &str) -> (r: Result<String, String>)
        ensures
            text::result_view(r) == if text::find(content@, old@) is Some {
                Ok::<Seq<char>, Seq<char>>(text::replace_first(content@, old@, new@))
            } else {
                Err("old_string not found in "@ + path@)
            },
    {
        if !text::contains_str(content, old) {
            return Err(text::cat2("old_string not found in ", path));
        }
        Ok(text::replace_first_str(content, old, new))
    }

    /// What is reported of the file after it was edited.
    pub fn report(path: &str, before: String, after: &str) -> (r: ToolExecutionResult)
        ensures
            r@ == edit_result(path@, before@, after@),
    {
        let changes = match compute_modified_file_change(path, before.as_str(), after) {
            Some(c) => one_change(c),
            None => no_changes(),
        };
        let entry = RollbackEntry {
            path: path.to_owned(),
            kind: RollbackKind::Modified,
            before_content: Some(before),
            expected_after_hash: Some(content_hash64(after)),
        };
        ToolExecutionResult {
            output: text::cat2("Edited ", path),
            changes,
            rollback_entries: one_entry(entry),
        }
    }
}

// ---- delete ----

/// What is reported of a file that was deleted, and how it is undone.
pub open spec fn delete_result(path: Seq<char>, before: Seq<char>) -> ToolExecutionResultView {
    ToolExecutionResultView {
        output: "Deleted "@ + path,
        changes: seq![whole_file_change(path, FileChangeKind::Removed)],
        rollback_entries: seq![
            RollbackEntryView {
                path,
                kind: RollbackKind::Removed,
                before_content: Some(before),
                expected_after_hash: None,
            },
        ],
    }
}

impl DeleteTool {
    /// The path that the arguments name.
    pub fn plan(&self, args: &Json) -> (r: Result<String, String>)
        ensures
            text::result_view(r) == match required(args@, "file_path"@, "Missing file_path"@) {
                Ok(path) => Ok::<Seq<char>, Seq<char>>(paths::joined(self.ctx.workspace@, path)),
                Err(missing) => Err(missing),
            },
    {
        match required_text(args, "file_path", "Missing file_path") {
            Ok(path) => Ok(self.ctx.resolve(path.as_str())),
            Err(e) => Err(e),
        }
    }

    /// Refuses to delete a directory.
    pub fn check(path: &str, is_dir: bool) -> (r: Result<(), String>)
        ensures
            match r {
                Ok(_) => !is_dir,
                Err(e) => is_dir && e@ == "Refusing to delete directory "@ + path@
                    + " (file-only delete)"@,
            },
    {
        if is_dir {
            Err(text::cat3("Refusing to delete directory ", path, " (file-only delete)"))
        } else {
            Ok(())
        }
    }

    /// What is reported of the file after it was deleted.
    pub fn report(path: &str, before: String) -> (r: ToolExecutionResult)
        ensures
            r@ == delete_result(path@, before@),
    {
        let entry = RollbackEntry {
            path: path.to_owned(),
            kind: RollbackKind::Removed,
            before_content: Some(before),
            expected_after_hash: None,
        };
        ToolExecutionResult {
            output: text::cat2("Deleted ", path),
            changes: one_change(whole_change(path, FileChangeKind::Removed)),
            rollback_entries: one_entry(entry),
        }
    }
}

// ---- bash ----

/// What is to be run, and for how many seconds at most.
pub struct BashPlan {
    pub command: String,
    pub timeout: u64,
}

/// `a` and `b` on lines of their own, where there is anything in them.
pub open spec fn on_lines(a: Seq<char>, b: Seq<char>) -> Seq<char> {
    if b.len() == 0 {
        a
    } else if a.len() == 0 {
        b
    } else {
        a + "\n"@ + b
    }
}

/// What a command that ran to its end printed, and how it ended if it failed.
pub open spec fn command_text(
    stdout: Seq<char>,
    stderr: Seq<char>,
    success: bool,
    code: Option<i32>,
) -> Seq<char> {
    let printed = on_lines(stdout, stderr);
    let ended = if success {
        printed
    } else {
        on_lines(
            printed,
            "[exit code: "@ + text::signed_decimal(
                match code {
                    Some(c) => c as int,
                    None => -1,
                },
            ) + "]"@,
        )
    };
    if ended.len() == 0 {
        "(no output)"@
    } else {
        ended
    }
}

fn put_on_lines(a: &str, b: &str) -> (s: String)
    ensures
        s@ == on_lines(a@, b@),
{
    if b.is_empty() {
        a.to_owned()
    } else if a.is_empty() {
        b.to_owned()
    } else {
        text::cat3(a, "\n", b)
    }
}

impl BashTool {
    /// What the arguments ask for.
    pub fn plan(&self, args: &Json) -> (r: Result<BashPlan, String>)
        ensures
            match required(args@, "command"@, "Missing command"@) {
                Ok(command) => r matches Ok(p) && p.command@ == command && p.timeout == (
                match json::json_uint(args@, "timeout"@) {
                    Some(n) => n,
                    None => 120,
                }),
                Err(missing) => r matches Err(e) && e@ == missing,
            },
    {
        match required_text(args, "command", "Missing command") {
            Ok(command) => Ok(
                BashPlan {
                    command,
                    timeout: match args.uint("timeout") {
                        Some(n) => n,
                        None => 120,
                    },
                },
            ),
            Err(e) => Err(e),
        }
    }

    /// What is reported of a command that was stopped after this many seconds.
    pub fn timed_out(timeout: u64) -> (r: ToolExecutionResult)
        ensures
            r@ == plain_result("[command timed out after "@ + text::decimal(timeout as nat) + "s]"@),
    {
        result_no_changes(
            text::cat3("[command timed out after ", text::decimal_of(timeout).as_str(), "s]"),
        )
    }

    /// What is reported of a command that ran to its end.
    pub fn report(stdout: &str, stderr: &str, success: bool, code: Option<i32>) -> (r:
        ToolExecutionResult)
        ensures
            r@ == plain_result(bounded_output(command_text(stdout@, stderr@, success, code))),
    {
        let mut printed = put_on_lines(stdout, stderr);
        if !success {
            let number: i32 = match code {
                Some(c) => c,
                None => -1,
            };
            let ended = text::cat3(
                "[exit code: ",
                text::signed_decimal_of(number).as_str(),
                "]",
            );
            printed = put_on_lines(printed.as_str(), ended.as_str());
        }
        if printed.as_str().is_empty() {
            printed = "(no output)".to_owned();
        }
        result_no_changes(truncate_output(printed))
    }
}

// ---- use_skill ----

/// The text of a skill without its frontmatter.
pub open spec fn skill_body(content: Seq<char>) -> Seq<char> {
    match history::after_opening(content) {
        Some(rest) => match history::frontmatter(rest) {
            Some((_, body)) => text::trimmed(text::trim_start_char(body, '\n')),
            None => text::trimmed(content),
        },
        None => text::trimmed(content),
    }
}

impl UseSkillTool {
    /// The skill that the arguments name: letters, numbers, hyphens and
    /// underscores, so that it names nothing outside the directory of skills.
    pub fn plan(&self, args: &Json) -> (r: Result<String, String>)
        ensures
            text::result_view(r) == match required(args@, "skill_name"@, "Missing 'skill_name'"@) {
                Ok(name) => if text::plain_name(name, "-_"@) {
                    Ok::<Seq<char>, Seq<char>>(name)
                } else {
                    Err(
                        "Invalid skill name '"@ + name
                            + "': only letters, numbers, hyphens, and underscores allowed"@,
                    )
                },
                Err(missing) => Err(missing),
            },
            r matches Ok(name) ==> text::no_other_ascii(name@, "-_"@),
    {
        match required_text(args, "skill_name", "Missing 'skill_name'") {
            Ok(name) => if text::is_plain_name(name.as_str(), "-_") {
                Ok(name)
            } else {
                Err(
                    text::cat3(
                        "Invalid skill name '",
                        name.as_str(),
                        "': only letters, numbers, hyphens, and underscores allowed",
                    ),
                )
            },
            Err(e) => Err(e),
        }
    }

    /// The error for a skill that there is none of.
    pub fn not_found(name: &str, path: &str) -> (s: String)
        ensures
            s@ == "Skill '"@ + name@ + "' not found at "@ + path@,
    {
        let mut s = text::cat3("Skill '", name, "' not found at ");
        s.append(path);
        s
    }

    /// What is reported of the file of a skill.
    pub fn report(name: &str, content: &str) -> (r: ToolExecutionResult)
        ensures
            r@ == plain_result(
                if skill_body(content@).len() == 0 {
                    "[Skill '"@ + name@ + "' has no content]"@
                } else {
                    skill_body(content@)
                },
            ),
    {
        let body = match history::strip_frontmatter_prefix(content) {
            Some(rest) => match history::split_frontmatter(rest.as_str()) {
                Some((_, body)) => text::trim_str(
                    text::trim_start_char_str(body.as_str(), '\n').as_str(),
                ),
                None => text::trim_str(content),
            },
            None => text::trim_str(content),
        };
        if body.as_str().is_empty() {
            result_no_changes(text::cat3("[Skill '", name, "' has no content]"))
        } else {
            result_no_changes(body)
        }
    }
}

impl FinishTaskTool {
    /// What is reported of the end of the task.
    pub fn report(&self) -> (r: ToolExecutionResult)
        ensures
            r@ == plain_result("[task finished]"@),
    {
        result_no_changes("[task finished]".to_owned())
    }
}

// ---- subagent ----

/// What is delegated, and to whom.
pub struct SubagentPlan {
    pub agent: String,
    pub task: String,
}

/// The name of an agent without the sign that users may put before it.
pub open spec fn bare_agent_name(name: Seq<char>) -> Seq<char> {
    if text::starts_with(name, "@"@) {
        name.skip("@"@.len() as int)
    } else {
        name
    }
}

impl SubagentTool {
    /// What the arguments ask for.
    pub fn plan(&self, args: &Json) -> (r: Result<SubagentPlan, String>)
        ensures
            match (
                required(args@, "agent"@, "Missing 'agent'"@),
                required(args@, "task"@, "Missing 'task'"@),
            ) {
                (Ok(name), Ok(task)) => r matches Ok(p) && p.agent@ == bare_agent_name(name)
                    && p.task@ == task,
                (Err(missing), _) => r matches Err(e) && e@ == missing,
                (_, Err(missing)) => r matches Err(e) && e@ == missing,
            },
    {
        let name = match required_text(args, "agent", "Missing 'agent'") {
            Ok(name) => name,
            Err(e) => {
                return Err(e);
            },
        };
        match required_text(args, "task", "Missing 'task'") {
            Ok(task) => {
                let agent = match text::strip_prefix_str(name.as_str(), "@") {
                    Some(bare) => bare,
                    None => name,
                };
                Ok(SubagentPlan { agent, task })
            },
            Err(e) => Err(e),
        }
    }
}

} // verus!
