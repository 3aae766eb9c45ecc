//! Session files: a frontmatter and the messages of the conversation below
//! headings.

use crate::clock;
use crate::clock::Timestamp;
use crate::llm::stream;
use crate::llm::Role;
use crate::paths;
use crate::session;
use crate::session::{Message, Said};
use crate::text;
use vstd::prelude::*;
use vstd::string::*;

verus! {

/// The text behind the opening line of a frontmatter.
pub open spec fn after_opening(content: Seq<char>) -> Option<Seq<char>> {
    if text::starts_with(content, "---\n"@) {
        Some(content.skip("---\n"@.len() as int))
    } else if text::starts_with(content, "---\r\n"@) {
        Some(content.skip("---\r\n"@.len() as int))
    } else {
        None
    }
}

/// The frontmatter and the text behind it.
pub open spec fn frontmatter(rest: Seq<char>) -> Option<(Seq<char>, Seq<char>)> {
    match text::find(rest, "\n---"@) {
        Some(k) => Some((rest.take(k as int), rest.skip((k + "\n---"@.len()) as int))),
        None => match text::find(rest, "\r\n---"@) {
            Some(k) => Some((rest.take(k as int), rest.skip((k + "\r\n---"@.len()) as int))),
            None => None,
        },
    }
}

/// The text behind the opening line of a frontmatter.
pub fn strip_frontmatter_prefix(content: &str) -> (r: Option<String>)
    ensures
        text::opt_view(r) == after_opening(content@),
{
    match text::strip_prefix_str(content, "---\n") {
        Some(rest) => Some(rest),
        None => text::strip_prefix_str(content, "---\r\n"),
    }
}

/// The frontmatter and the text behind it.
pub fn split_frontmatter(rest: &str) -> (r: Option<(String, String)>)
    ensures
        match r {
            Some(t) => frontmatter(rest@) == Some((t.0@, t.1@)),
            None => frontmatter(rest@) is None,
        },
{
    match text::split_once_str(rest, "\n---") {
        Some(t) => Some(t),
        None => text::split_once_str(rest, "\r\n---"),
    }
}

// ---- reading ----

/// The role that a heading names; `None` for a line that is no heading, and
/// `Some(None)` for a heading with another role.
pub open spec fn heading_role(line: Seq<char>) -> Option<Option<Role>> {
    if text::starts_with(line, "## "@) {
        let rest = line.skip("## "@.len() as int);
        match text::find(rest, " — "@) {
            Some(k) => {
                let name = text::trimmed(rest.take(k as int));
                if name == "User"@ {
                    Some(Some(Role::User))
                } else if name == "Assistant"@ {
                    Some(Some(Role::Assistant))
                } else {
                    Some(None)
                }
            },
            None => None,
        }
    } else {
        None
    }
}

/// What has been read of a body.
pub struct ReadState {
    pub messages: Seq<Said>,
    /// Who says what follows.
    pub role: Option<Role>,
    pub content: Seq<char>,
}

impl ReadState {
    /// The message that is being read ends here; a blank one is dropped.
    pub open spec fn flushed(self) -> ReadState {
        ReadState {
            messages: match self.role {
                Some(role) => if text::trimmed(self.content).len() > 0 {
                    self.messages.push(Said { role, content: text::trimmed(self.content) })
                } else {
                    self.messages
                },
                None => self.messages,
            },
            role: None,
            content: Seq::empty(),
        }
    }

    /// A line is read.
    pub open spec fn with_line(self, line: Seq<char>) -> ReadState {
        match heading_role(line) {
            Some(role) => ReadState { role, ..self.flushed() },
            None => if self.role is None || self.content.len() == 0 && text::trimmed(line).len()
                == 0 {
                self
            } else if self.content.len() == 0 {
                ReadState { content: line, ..self }
            } else {
                ReadState { content: self.content + "\n"@ + line, ..self }
            },
        }
    }

    /// Some lines are read.
    pub open spec fn with_lines(self, lines: Seq<Seq<char>>) -> ReadState
        decreases lines.len(),
    {
        if lines.len() == 0 {
            self
        } else {
            self.with_line(lines[0]).with_lines(lines.skip(1))
        }
    }
}

/// Nothing has been read yet.
pub open spec fn nothing_read() -> ReadState {
    ReadState { messages: Seq::empty(), role: None, content: Seq::empty() }
}

/// The messages in a body.
pub open spec fn body_messages(body: Seq<char>) -> Seq<Said> {
    nothing_read().with_lines(text::lines(body)).flushed().messages
}

/// The frontmatter and the messages of a session file.
pub open spec fn file_content(content: Seq<char>) -> Result<(Seq<char>, Seq<Said>), Seq<char>> {
    match after_opening(content) {
        Some(rest) => match frontmatter(rest) {
            Some((yaml, body)) => Ok((yaml, body_messages(body))),
            None => Err("Session file missing closing `---` after frontmatter"@),
        },
        None => Err("Session file must start with `---`"@),
    }
}

/// The role that a heading names.
pub fn parse_message_heading(line: &str) -> (r: Option<Option<Role>>)
    ensures
        r == heading_role(line@),
{
    match text::strip_prefix_str(line, "## ") {
        Some(rest) => match text::split_once_str(rest.as_str(), " — ") {
            Some((name, _)) => {
                let name = text::trim_str(name.as_str());
                if text::same(name.as_str(), "User") {
                    Some(Some(Role::User))
                } else if text::same(name.as_str(), "Assistant") {
                    Some(Some(Role::Assistant))
                } else {
                    Some(None)
                }
            },
            None => None,
        },
        None => None,
    }
}

/// The message that is being read.
struct ParsedMessage {
    role: Option<Role>,
    content: String,
}

impl ParsedMessage {
    fn push_line(&mut self, line: &str)
        ensures
            final(self).role == old(self).role,
            final(self).content@ == if old(self).content@.len() == 0 {
                if text::trimmed(line@).len() == 0 {
                    old(self).content@
                } else {
                    line@
                }
            } else {
                old(self).content@ + "\n"@ + line@
            },
    {
        if self.content.as_str().is_empty() {
            if !text::trim_str(line).as_str().is_empty() {
                self.content = line.to_owned();
            }
        } else {
            self.content.append("\n");
            self.content.append(line);
        }
    }

    fn flush_into(&mut self, messages: &mut Vec<Message>)
        ensures
            final(self).role is None,
            final(self).content@.len() == 0,
            session::said(final(messages)@) == (ReadState {
                messages: session::said(old(messages)@),
                role: old(self).role,
                content: old(self).content@,
            }).flushed().messages,
    {
        match self.role {
            Some(role) => {
                let content = text::trim_str(self.content.as_str());
                if !content.as_str().is_empty() {
                    session::push_said(messages, Message::new(role, content));
                }
            },
            None => {},
        }
        self.role = None;
        self.content = String::new();
    }
}

/// The messages in a body.
pub fn parse_body(body: &str) -> (messages: Vec<Message>)
    ensures
        session::said(messages@) == body_messages(body@),
{
    let lines = text::lines_of(body);
    let ghost all = text::lines(body@);
    let ghost end = nothing_read().with_lines(all);
    let mut messages: Vec<Message> = Vec::new();
    let mut current = ParsedMessage { role: None, content: String::new() };
    let mut i: usize = 0;
    assert(all.skip(0) =~= all);
    assert(session::said(messages@) =~= Seq::empty());
    assert(current.content@ =~= Seq::empty());
    while i < lines.len()
        invariant
            i <= lines.len(),
            text::views(lines@) == all,
            end == (ReadState {
                messages: session::said(messages@),
                role: current.role,
                content: current.content@,
            }).with_lines(all.skip(i as int)),
        decreases lines.len() - i,
    {
        let ghost rest = all.skip(i as int);
        assert(rest[0] == lines@[i as int]@) by {
            assert(all[i as int] == text::views(lines@)[i as int]);
        }
        assert(rest.skip(1) =~= all.skip(i + 1));
        match parse_message_heading(lines[i].as_str()) {
            Some(role) => {
                current.flush_into(&mut messages);
                current.role = role;
                assert(current.content@ =~= Seq::empty());
            },
            None => {
                if current.role.is_some() {
                    current.push_line(lines[i].as_str());
                }
            },
        }
        i += 1;
    }
    current.flush_into(&mut messages);
    messages
}

/// The frontmatter of a session file and its messages.
pub struct SessionFile {
    pub yaml: String,
    pub messages: Vec<Message>,
}

/// Reads a session file.
pub fn parse(content: &str) -> (r: Result<SessionFile, String>)
    ensures
        match r {
            Ok(f) => file_content(content@) == Ok::<(Seq<char>, Seq<Said>), Seq<char>>(
                (f.yaml@, session::said(f.messages@)),
            ),
            Err(e) => file_content(content@) == Err::<(Seq<char>, Seq<Said>), Seq<char>>(e@),
        },
{
    match strip_frontmatter_prefix(content) {
        Some(rest) => match split_frontmatter(rest.as_str()) {
            Some((yaml, body)) => Ok(SessionFile { yaml, messages: parse_body(body.as_str()) }),
            None => Err("Session file missing closing `---` after frontmatter".to_owned()),
        },
        None => Err("Session file must start with `---`".to_owned()),
    }
}

// ---- writing ----

/// A message with the time at which it was said.
pub struct Dated {
    pub said: Said,
    pub secs: int,
}

/// Messages with the times at which they were said.
pub open spec fn dated(messages: Seq<Message>) -> Seq<Dated> {
    messages.map_values(|m: Message| Dated { said: m@, secs: m.timestamp.secs as int })
}

/// How a role is written in a heading.
pub open spec fn role_heading(role: Role) -> Seq<char> {
    if role == Role::User {
        "User"@
    } else {
        "Assistant"@
    }
}

/// Whether messages of this role are kept in session files.
pub open spec fn is_kept(role: Role) -> bool {
    role == Role::User || role == Role::Assistant
}

/// The heading of a message.
pub open spec fn heading(m: Dated) -> Seq<char> {
    "## "@ + role_heading(m.said.role) + " — "@ + clock::time_of_day(m.secs)
}

/// A message in the body of a session file.
pub open spec fn block(m: Dated) -> Seq<char> {
    heading(m) + "\n"@ + m.said.content + "\n\n"@
}

/// The messages of a session file, one after the other.
pub open spec fn blocks(messages: Seq<Dated>) -> Seq<char>
    decreases messages.len(),
{
    if messages.len() == 0 {
        Seq::empty()
    } else {
        let before = blocks(messages.drop_last());
        if is_kept(messages.last().said.role) {
            before + block(messages.last())
        } else {
            before
        }
    }
}

/// A session file with this frontmatter and these messages.
pub open spec fn file_text(yaml: Seq<char>, messages: Seq<Dated>) -> Seq<char> {
    "---\n"@ + yaml + "---\n\n"@ + text::trimmed(blocks(messages))
}

/// A session file with this frontmatter and these messages.
pub fn serialize(yaml: &str, messages: &Vec<Message>) -> (s: String)
    ensures
        s@ == file_text(yaml@, dated(messages@)),
{
    let ghost all = dated(messages@);
    let mut body = String::new();
    let mut i: usize = 0;
    assert(all.take(0) =~= Seq::empty());
    while i < messages.len()
        invariant
            i <= messages.len(),
            all == dated(messages@),
            body@ == blocks(all.take(i as int)),
        decreases messages.len() - i,
    {
        assert(all.take(i + 1).drop_last() =~= all.take(i as int));
        let m = &messages[i];
        let ghost d = all[i as int];
        assert(all.take(i + 1).last() == d);
        if m.role == Role::User || m.role == Role::Assistant {
            let mut part = text::cat3(
                "## ",
                if m.role == Role::User {
                    "User"
                } else {
                    "Assistant"
                },
                " — ",
            );
            part.append(clock::time_of(m.timestamp).as_str());
            part.append("\n");
            part.append(m.content.as_str());
            part.append("\n\n");
            assert(part@ == block(d));
            body.append(part.as_str());
        }
        i += 1;
    }
    assert(all.take(all.len() as int) =~= all);
    let mut s = text::cat3("---\n", yaml, "---\n\n");
    s.append(text::trim_str(body.as_str()).as_str());
    s
}

// ---- what is written is read again ----

/// Those of some messages that session files keep.
pub open spec fn kept(messages: Seq<Dated>) -> Seq<Dated>
    decreases messages.len(),
{
    if messages.len() == 0 {
        Seq::empty()
    } else if is_kept(messages.last().said.role) {
        kept(messages.drop_last()).push(messages.last())
    } else {
        kept(messages.drop_last())
    }
}

/// Who said what.
pub open spec fn undated(messages: Seq<Dated>) -> Seq<Said> {
    messages.map_values(|m: Dated| m.said)
}

/// Whether a session file gives a text back unchanged: it is not empty and has
/// no whitespace at its ends, and none of its lines looks like a heading or
/// ends with a carriage return.
pub open spec fn storable(content: Seq<char>) -> bool {
    &&& content.len() > 0
    &&& text::trimmed(content) == content
    &&& forall|i: int|
        0 <= i < text::split(content, '\n').len() ==> storable_line(
            #[trigger] text::split(content, '\n')[i],
        )
}

/// Whether a line is given back unchanged as part of a message.
pub open spec fn storable_line(line: Seq<char>) -> bool {
    heading_role(line) is None && (line.len() > 0 ==> line.last() != '\r')
}

proof fn lemma_solid_start(s: Seq<char>)
    requires
        s.len() > 0,
        !text::is_white(s[0]),
    ensures
        text::trimmed(s).len() > 0,
    decreases s.len(),
{
    if text::is_white(s.last()) {
        lemma_solid_start(s.drop_last());
    }
}

spec fn clean(parts: Seq<Seq<char>>) -> bool {
    forall|i: int|
        0 <= i < parts.len() && (#[trigger] parts[i]).len() > 0 ==> parts[i].last() != '\r'
}

proof fn lemma_content_lines(c: Seq<char>, rest: Seq<char>)
    requires
        clean(text::split(c, '\n')),
    ensures
        text::lines(c + "\n"@ + rest) == text::split(c, '\n') + text::lines(rest),
        c.len() > 0 && c.last() != '\n' ==> text::lines(c) == text::split(c, '\n'),
    decreases c.len(),
{
    text::lemma_line_feed();
    text::lemma_found_char(c, '\n');
    let parts = text::split(c, '\n');
    match text::find(c, seq!['\n']) {
        Some(k) => {
            let first = c.take(k as int);
            let more = c.skip((k + 1) as int);
            let others = text::split(more, '\n');
            assert(parts =~= seq![first] + others);
            assert(parts[0] == first);
            assert forall|i: int| 0 <= i < others.len() && (#[trigger] others[i]).len() > 0 implies
                others[i].last() != '\r' by {
                assert(parts[i + 1] == others[i]);
            }
            lemma_content_lines(more, rest);
            assert(!first.contains('\n'));
            assert(c + "\n"@ + rest =~= first + "\n"@ + (more + "\n"@ + rest));
            text::lemma_first_line(first, more + "\n"@ + rest);
            assert(text::lines(c + "\n"@ + rest) =~= parts + text::lines(rest));
            if c.last() != '\n' {
                assert(c =~= first + "\n"@ + more);
                text::lemma_first_line(first, more);
                assert(more.len() > 0 && more.last() == c.last());
            }
        },
        None => {
            assert(parts =~= seq![c]);
            assert(parts[0] == c);
            text::lemma_first_line(c, rest);
        },
    }
}

proof fn lemma_lines_after_lines(state: ReadState, a: Seq<Seq<char>>, b: Seq<Seq<char>>)
    ensures
        state.with_lines(a + b) == state.with_lines(a).with_lines(b),
    decreases a.len(),
{
    if a.len() == 0 {
        assert(a + b =~= b);
    } else {
        assert((a + b).skip(1) =~= a.skip(1) + b);
        lemma_lines_after_lines(state.with_line(a[0]), a.skip(1), b);
    }
}

spec fn no_headings(parts: Seq<Seq<char>>) -> bool {
    forall|i: int| 0 <= i < parts.len() ==> heading_role(#[trigger] parts[i]) is None
}

/// The lines of a text are read as that text.
proof fn lemma_content_read(state: ReadState, c: Seq<char>)
    requires
        state.role is Some,
        no_headings(text::split(c, '\n')),
        state.content.len() > 0 || c.len() > 0 && !text::is_white(c[0]),
    ensures
        state.with_lines(text::split(c, '\n')) == (ReadState {
            content: if state.content.len() == 0 {
                c
            } else {
                state.content + "\n"@ + c
            },
            ..state
        }),
    decreases c.len(),
{
    text::lemma_line_feed();
    text::lemma_found_char(c, '\n');
    let parts = text::split(c, '\n');
    match text::find(c, seq!['\n']) {
        Some(k) => {
            let first = c.take(k as int);
            let more = c.skip((k + 1) as int);
            let others = text::split(more, '\n');
            assert(parts =~= seq![first] + others);
            assert(parts[0] == first);
            assert(parts.skip(1) =~= others);
            assert forall|i: int| 0 <= i < others.len() implies heading_role(
                #[trigger] others[i],
            ) is None by {
                assert(parts[i + 1] == others[i]);
            }
            if state.content.len() == 0 {
                assert(first.len() > 0 && first[0] == c[0]);
                lemma_solid_start(first);
            }
            let next = state.with_line(first);
            lemma_content_read(next, more);
            assert(c =~= first + "\n"@ + more);
            assert(state.content + "\n"@ + c =~= state.content + "\n"@ + first + "\n"@ + more);
        },
        None => {
            reveal_with_fuel(ReadState::with_lines, 2);
            assert(parts =~= seq![c]);
            assert(parts[0] == c);
            assert(parts.skip(1) =~= Seq::empty());
            if state.content.len() == 0 {
                lemma_solid_start(c);
            }
        },
    }
}

proof fn lemma_two_digits(n: int)
    requires
        0 <= n < 100,
    ensures
        clock::two_digits(n).len() == 2,
        forall|i: int|
            0 <= i < 2 ==> '0' <= #[trigger] clock::two_digits(n)[i] && clock::two_digits(n)[i]
                <= '9',
{
}

proof fn lemma_heading(m: Dated)
    requires
        is_kept(m.said.role),
    ensures
        heading_role(heading(m)) == Some(Some(m.said.role)),
        heading(m).len() > 0,
        heading(m)[0] == '#',
        !heading(m).contains('\n'),
        heading(m).last() != '\r',
{
    reveal_strlit("## ");
    reveal_strlit(" — ");
    reveal_strlit("User");
    reveal_strlit("Assistant");
    reveal_strlit(":");
    let role = role_heading(m.said.role);
    let time = clock::time_of_day(m.secs);
    let h = heading(m);
    let s = m.secs % 86400;
    lemma_two_digits(s / 3600);
    lemma_two_digits(s % 3600 / 60);
    lemma_two_digits(s % 60);
    assert(time.len() == 8);
    assert forall|i: int| 0 <= i < time.len() implies time[i] != '\n' && time[i] != '\r' by {
        if i < 2 {
            assert(time[i] == clock::two_digits(s / 3600)[i]);
        } else if i == 2 || i == 5 {
            assert(time[i] == ':');
        } else if i < 5 {
            assert(time[i] == clock::two_digits(s % 3600 / 60)[i - 3]);
        } else {
            assert(time[i] == clock::two_digits(s % 60)[i - 6]);
        }
    }
    assert(h.take(3) =~= "## "@);
    assert(h.skip(3) =~= role + " — "@ + time);
    assert forall|i: int| 0 <= i < role.len() implies role[i] != " — "@[0] by {
        assert(" — "@[0] == ' ');
    }
    text::lemma_find_after(role, " — "@, time);
    assert(h.skip(3).take(role.len() as int) =~= role);
    assert(!text::is_white(role[0]) && !text::is_white(role.last()));
    text::lemma_trimmed_ends(role);
    assert("User"@.len() != "Assistant"@.len());
    assert forall|i: int| 0 <= i < h.len() implies h[i] != '\n' by {
        if i < 3 {
            assert(h[i] == "## "@[i]);
        } else if i < 3 + role.len() {
            assert(h[i] == role[i - 3]);
        } else if i < 6 + role.len() {
            assert(h[i] == " — "@[i - 3 - role.len()]);
        } else {
            assert(h[i] == time[i - 6 - role.len()]);
        }
    }
    assert(h.last() == time[7]);
}

/// The messages of a session file from the first on, without the line feeds at
/// the end.
spec fn conversation(messages: Seq<Dated>) -> Seq<char>
    decreases messages.len(),
{
    if messages.len() == 0 {
        Seq::empty()
    } else if messages.len() == 1 {
        heading(messages[0]) + "\n"@ + messages[0].said.content
    } else {
        heading(messages[0]) + "\n"@ + (messages[0].said.content + "\n"@ + (Seq::empty() + "\n"@
            + conversation(messages.skip(1))))
    }
}

spec fn all_storable(messages: Seq<Dated>) -> bool {
    forall|i: int|
        0 <= i < messages.len() ==> is_kept((#[trigger] messages[i]).said.role) && storable(
            messages[i].said.content,
        )
}

proof fn lemma_conversation_ends(messages: Seq<Dated>)
    requires
        messages.len() > 0,
        all_storable(messages),
    ensures
        conversation(messages).len() > 0,
        conversation(messages)[0] == '#',
        !text::is_white(conversation(messages).last()),
    decreases messages.len(),
{
    let m = messages[0];
    lemma_heading(m);
    text::lemma_trimmed_ends(m.said.content);
    if messages.len() > 1 {
        lemma_conversation_ends(messages.skip(1));
        assert(conversation(messages).last() == conversation(messages.skip(1)).last());
    }
}

/// What a further message adds to a conversation.
spec fn addition(m: Dated) -> Seq<char> {
    "\n\n"@ + (heading(m) + "\n"@ + m.said.content)
}

proof fn lemma_regroup(
    h: Seq<char>,
    c: Seq<char>,
    n: Seq<char>,
    inner: Seq<char>,
    y: Seq<char>,
)
    ensures
        h + (c + n + (Seq::empty() + n + (inner + y))) == (h + (c + n + (Seq::empty() + n + inner)))
            + y,
        h + (c + n + (Seq::empty() + n + inner)) == h + c + (n + n + inner),
        inner + (n + y) + n == (inner + n) + (y + n),
{
    assert(h + (c + n + (Seq::empty() + n + (inner + y))) =~= (h + (c + n + (Seq::empty() + n
        + inner))) + y);
    assert(h + (c + n + (Seq::empty() + n + inner)) =~= h + c + (n + n + inner));
    assert(inner + (n + y) + n =~= (inner + n) + (y + n));
}

proof fn lemma_conversation_extended(messages: Seq<Dated>)
    requires
        messages.len() > 1,
    ensures
        conversation(messages) == conversation(messages.drop_last()) + addition(messages.last()),
    decreases messages.len(),
{
    text::lemma_line_feed();
    let rest = messages.skip(1);
    let head = heading(messages[0]) + "\n"@;
    let c = messages[0].said.content;
    let last = messages.last();
    assert(messages.drop_last()[0] == messages[0]);
    if messages.len() == 2 {
        assert(rest[0] == last);
        assert("\n\n"@ =~= "\n"@ + "\n"@);
        lemma_regroup(head, c, "\n"@, conversation(rest), Seq::empty());
    } else {
        lemma_conversation_extended(rest);
        assert(rest.drop_last() =~= messages.drop_last().skip(1));
        assert(rest.last() == last);
        lemma_regroup(head, c, "\n"@, conversation(rest.drop_last()), addition(last));
    }
}

proof fn lemma_blocks(messages: Seq<Dated>)
    requires
        messages.len() > 0,
        all_storable(messages),
    ensures
        blocks(messages) == conversation(messages) + "\n\n"@,
    decreases messages.len(),
{
    text::lemma_line_feed();
    assert(is_kept(messages[messages.len() - 1].said.role));
    if messages.len() == 1 {
        assert(messages.drop_last() =~= Seq::empty());
        assert(blocks(messages.drop_last()) =~= Seq::empty());
        assert(blocks(messages) =~= block(messages[0]));
    } else {
        let before = messages.drop_last();
        assert forall|i: int| 0 <= i < before.len() implies is_kept(
            (#[trigger] before[i]).said.role,
        ) && storable(before[i].said.content) by {
            assert(before[i] == messages[i]);
        }
        lemma_blocks(before);
        lemma_conversation_extended(messages);
        let last = messages.last();
        lemma_regroup(
            Seq::empty(),
            Seq::empty(),
            "\n\n"@,
            conversation(before),
            heading(last) + "\n"@ + last.said.content,
        );
    }
}

proof fn lemma_trimmed_blocks(messages: Seq<Dated>)
    requires
        all_storable(messages),
    ensures
        text::trimmed(blocks(messages)) == conversation(messages),
{
    text::lemma_line_feed();
    if messages.len() > 0 {
        lemma_blocks(messages);
        lemma_conversation_ends(messages);
        let c = conversation(messages);
        let b = blocks(messages);
        assert(b[0] == '#');
        assert(text::trim_start(b) == b);
        assert(b.drop_last().drop_last() =~= c);
        assert(b.last() == '\n');
        assert(b.drop_last().last() == '\n');
        assert(text::trim_end(c) == c);
        assert(text::trim_end(b.drop_last()) == c);
    }
}

/// The lines of a message are read as that message.
proof fn lemma_message_read(state: ReadState, m: Dated)
    requires
        is_kept(m.said.role),
        storable(m.said.content),
    ensures
        state.with_lines(seq![heading(m)] + text::split(m.said.content, '\n')) == (ReadState {
            messages: state.flushed().messages,
            role: Some(m.said.role),
            content: m.said.content,
        }),
{
    let h = heading(m);
    let c = m.said.content;
    let parts = text::split(c, '\n');
    lemma_heading(m);
    text::lemma_trimmed_ends(c);
    assert forall|i: int| 0 <= i < parts.len() implies heading_role(
        #[trigger] parts[i],
    ) is None by {
        assert(storable_line(parts[i]));
    }
    let started = state.with_line(h);
    lemma_content_read(started, c);
    let all = seq![h] + parts;
    assert(all[0] == h);
    assert(all.skip(1) =~= parts);
}

/// A blank line is read.
proof fn lemma_blank_read(state: ReadState)
    ensures
        state.with_lines(seq![Seq::<char>::empty()]) == state.with_line(Seq::empty()),
        heading_role(Seq::<char>::empty()) is None,
{
    reveal_strlit("## ");
    reveal_with_fuel(ReadState::with_lines, 2);
    let blank = seq![Seq::<char>::empty()];
    assert(blank[0] == Seq::<char>::empty());
    assert(blank.skip(1) =~= Seq::empty());
}

proof fn lemma_conversation_lines(messages: Seq<Dated>)
    requires
        messages.len() > 0,
        all_storable(messages),
    ensures
        ({
            let first = seq![heading(messages[0])] + text::split(messages[0].said.content, '\n');
            text::lines(conversation(messages)) == if messages.len() == 1 {
                first
            } else {
                first + (seq![Seq::<char>::empty()] + text::lines(conversation(messages.skip(1))))
            }
        }),
{
    let m = messages[0];
    let h = heading(m);
    let c = m.said.content;
    let parts = text::split(c, '\n');
    text::lemma_line_feed();
    lemma_heading(m);
    text::lemma_trimmed_ends(c);
    assert forall|i: int| 0 <= i < parts.len() && (#[trigger] parts[i]).len() > 0 implies
        parts[i].last() != '\r' by {
        assert(storable_line(parts[i]));
    }
    if messages.len() == 1 {
        text::lemma_first_line(h, c);
        lemma_content_lines(c, Seq::empty());
    } else {
        let rest = conversation(messages.skip(1));
        let tail = Seq::<char>::empty() + "\n"@ + rest;
        text::lemma_first_line(h, c + "\n"@ + tail);
        lemma_content_lines(c, tail);
        assert(!Seq::<char>::empty().contains('\n'));
        text::lemma_first_line(Seq::empty(), rest);
        assert(seq![h] + (parts + (seq![Seq::<char>::empty()] + text::lines(rest))) =~= (seq![h]
            + parts) + (seq![Seq::<char>::empty()] + text::lines(rest)));
    }
}

proof fn lemma_conversation_read(state: ReadState, messages: Seq<Dated>)
    requires
        messages.len() > 0,
        all_storable(messages),
    ensures
        state.with_lines(text::lines(conversation(messages))).flushed().messages
            == state.flushed().messages + undated(messages),
    decreases messages.len(),
{
    let m = messages[0];
    let c = m.said.content;
    let first = seq![heading(m)] + text::split(c, '\n');
    let base = state.flushed().messages;
    lemma_conversation_lines(messages);
    lemma_message_read(state, m);
    text::lemma_trimmed_ends(c);
    let told = state.with_lines(first);
    if messages.len() == 1 {
        assert(undated(messages) =~= seq![m.said]);
        assert(base.push(m.said) =~= base + undated(messages));
    } else {
        let rest = messages.skip(1);
        assert forall|i: int| 0 <= i < rest.len() implies is_kept(
            (#[trigger] rest[i]).said.role,
        ) && storable(rest[i].said.content) by {
            assert(rest[i] == messages[i + 1]);
        }
        let blank = seq![Seq::<char>::empty()];
        let more = text::lines(conversation(rest));
        lemma_lines_after_lines(state, first, blank + more);
        lemma_lines_after_lines(told, blank, more);
        lemma_blank_read(told);
        let spaced = told.with_line(Seq::empty());
        text::lemma_line_feed();
        let x = c + "\n"@ + Seq::<char>::empty();
        assert(spaced.content == x);
        assert(x =~= c.push('\n'));
        assert(x.drop_last() =~= c);
        assert(text::trim_start(x) == x);
        assert(text::trim_end(c) == c);
        assert(text::trimmed(x) == c);
        assert(spaced.flushed().messages == base.push(m.said));
        lemma_conversation_read(spaced, rest);
        assert(undated(messages) =~= seq![m.said] + undated(rest));
        assert(base.push(m.said) + undated(rest) =~= base + undated(messages));
    }
}

proof fn lemma_kept(messages: Seq<Dated>)
    ensures
        blocks(messages) == blocks(kept(messages)),
        forall|i: int|
            0 <= i < kept(messages).len() ==> is_kept((#[trigger] kept(messages)[i]).said.role),
    decreases messages.len(),
{
    if messages.len() > 0 {
        lemma_kept(messages.drop_last());
        if is_kept(messages.last().said.role) {
            assert(kept(messages).drop_last() =~= kept(messages.drop_last()));
        }
    }
}

proof fn lemma_opening(yaml: Seq<char>, c: Seq<char>)
    ensures
        after_opening("---\n"@ + yaml + "---\n\n"@ + c) == Some(yaml + ("---\n\n"@ + c)),
{
    reveal_strlit("---\n");
    let content = "---\n"@ + yaml + "---\n\n"@ + c;
    assert(content.take(4) =~= "---\n"@);
    assert(content.skip(4) =~= yaml + ("---\n\n"@ + c));
}

proof fn lemma_closing(yaml: Seq<char>, c: Seq<char>)
    requires
        yaml.len() > 0,
        yaml.last() == '\n',
        text::find(yaml, "\n---"@) is None,
    ensures
        frontmatter(yaml + ("---\n\n"@ + c)) == Some((yaml.drop_last(), "\n\n"@ + c)),
{
    reveal_strlit("---\n\n");
    reveal_strlit("\n---");
    reveal_strlit("\n\n");
    let tail = "---\n\n"@ + c;
    let rest = yaml + tail;
    let n = yaml.len() - 1;
    stream::lemma_find_in_longer(yaml, tail, "\n---"@);
    assert(rest.skip(n).take(4) =~= "\n---"@);
    text::lemma_find_not_behind(rest, "\n---"@, n);
    text::lemma_find_bounds(rest, "\n---"@);
    let k = text::find(rest, "\n---"@)->0;
    if k < n {
        assert(rest.skip(k as int).take(4)[n - k] == rest[n]);
        assert("\n---"@[n - k] == '-');
    }
    assert(rest.take(n) =~= yaml.drop_last());
    assert(rest.skip(n + 4) =~= "\n\n"@ + c);
}

proof fn lemma_body_read(messages: Seq<Dated>)
    requires
        all_storable(messages),
    ensures
        body_messages("\n\n"@ + conversation(messages)) == undated(messages),
{
    text::lemma_line_feed();
    let c = conversation(messages);
    let none = Seq::<char>::empty();
    let blank = seq![none];
    let start = nothing_read();
    assert("\n\n"@ + c =~= none + "\n"@ + (none + "\n"@ + c));
    assert(!none.contains('\n'));
    text::lemma_first_line(none, none + "\n"@ + c);
    text::lemma_first_line(none, c);
    lemma_blank_read(start);
    lemma_lines_after_lines(start, blank, blank + text::lines(c));
    lemma_lines_after_lines(start, blank, text::lines(c));
    if messages.len() > 0 {
        lemma_conversation_read(start, messages);
        assert(Seq::<Said>::empty() + undated(messages) =~= undated(messages));
    } else {
        assert(undated(messages) =~= Seq::empty());
        assert(text::lines(c) =~= Seq::empty());
    }
}

/// What is written to a session file is read again: the messages of the user
/// and of the model, in order and unchanged, and the frontmatter without the
/// line feed at its end. The messages must be storable, and the frontmatter
/// must end with a line feed and hold no line of dashes.
pub proof fn law_written_session_is_read_again(yaml: Seq<char>, messages: Seq<Dated>)
    requires
        forall|i: int|
            0 <= i < kept(messages).len() ==> storable(
                (#[trigger] kept(messages)[i]).said.content,
            ),
        yaml.len() > 0,
        yaml.last() == '\n',
        text::find(yaml, "\n---"@) is None,
    ensures
        file_content(file_text(yaml, messages)) == Ok::<(Seq<char>, Seq<Said>), Seq<char>>(
            (yaml.drop_last(), undated(kept(messages))),
        ),
{
    lemma_kept(messages);
    let ms = kept(messages);
    lemma_trimmed_blocks(ms);
    let c = conversation(ms);
    lemma_opening(yaml, c);
    lemma_closing(yaml, c);
    lemma_body_read(ms);
}

/// A file in the directory of a client's sessions.
#[derive(Debug)]
pub struct FileEntry {
    pub name: String,
    /// When it was written, where that is known.
    pub modified: Option<Timestamp>,
}

/// The model of [`FileEntry`].
pub struct FileEntryView {
    pub name: Seq<char>,
    pub modified: Option<Timestamp>,
}

impl View for FileEntry {
    type V = FileEntryView;

    open spec fn view(&self) -> FileEntryView {
        FileEntryView { name: self.name@, modified: self.modified }
    }
}

/// The models of a sequence of files.
pub open spec fn entry_views(v: Seq<FileEntry>) -> Seq<FileEntryView> {
    v.map_values(|e: FileEntry| e@)
}

/// Whether a time is later than another; one that is not known is the earliest.
pub open spec fn is_later(a: Option<Timestamp>, b: Option<Timestamp>) -> bool {
    match (a, b) {
        (Some(x), Some(y)) => x.secs > y.secs || (x.secs == y.secs && x.nanos > y.nanos),
        (Some(_), None) => true,
        (None, _) => false,
    }
}

/// Whether a file keeps a session.
pub open spec fn is_session_file(e: FileEntryView) -> bool {
    paths::stem(e.name, "md"@) is Some
}

/// How many files at the start of a list are newer than `e`.
pub open spec fn place_of(list: Seq<FileEntryView>, e: FileEntryView) -> int
    decreases list.len(),
{
    if list.len() == 0 || !is_later(list[0].modified, e.modified) {
        0
    } else {
        1 + place_of(list.skip(1), e)
    }
}

/// The session files of a directory, the newest first; of two that are equally
/// new, the one that is found later comes first.
pub open spec fn newest_first_of(files: Seq<FileEntryView>) -> Seq<FileEntryView>
    decreases files.len(),
{
    if files.len() == 0 {
        Seq::empty()
    } else {
        let list = newest_first_of(files.drop_last());
        if is_session_file(files.last()) {
            list.insert(place_of(list, files.last()), files.last())
        } else {
            list
        }
    }
}

fn later(a: Option<Timestamp>, b: Option<Timestamp>) -> (r: bool)
    ensures
        r == is_later(a, b),
{
    match (a, b) {
        (Some(x), Some(y)) => x.secs > y.secs || (x.secs == y.secs && x.nanos > y.nanos),
        (Some(_), None) => true,
        (None, _) => false,
    }
}

proof fn lemma_place(list: Seq<FileEntryView>, e: FileEntryView)
    ensures
        0 <= place_of(list, e) <= list.len(),
        forall|i: int|
            0 <= i < place_of(list, e) ==> is_later((#[trigger] list[i]).modified, e.modified),
        place_of(list, e) < list.len() ==> !is_later(
            list[place_of(list, e)].modified,
            e.modified,
        ),
    decreases list.len(),
{
    if list.len() > 0 && is_later(list[0].modified, e.modified) {
        let rest = list.skip(1);
        lemma_place(rest, e);
        assert forall|i: int| 0 <= i < place_of(list, e) implies is_later(
            (#[trigger] list[i]).modified,
            e.modified,
        ) by {
            if i > 0 {
                assert(rest[i - 1] == list[i]);
            }
        }
        if place_of(list, e) < list.len() {
            assert(rest[place_of(list, e) - 1] == list[place_of(list, e)]);
        }
    }
}

fn find_place(list: &Vec<FileEntry>, e: &FileEntry) -> (n: usize)
    ensures
        n == place_of(entry_views(list@), e@),
        n <= list.len(),
{
    let ghost all = entry_views(list@);
    let mut i: usize = 0;
    assert(all.skip(0) =~= all);
    while i < list.len() && later(list[i].modified, e.modified)
        invariant
            i <= list.len(),
            all == entry_views(list@),
            place_of(all, e@) == i + place_of(all.skip(i as int), e@),
        decreases list.len() - i,
    {
        assert(all.skip(i as int)[0] == list@[i as int]@);
        assert(all.skip(i as int).skip(1) =~= all.skip(i + 1));
        i += 1;
    }
    assert(i < list.len() ==> all.skip(i as int)[0] == list@[i as int]@);
    i
}

/// The session files of a directory, the newest first.
pub fn newest_first(files: Vec<FileEntry>) -> (list: Vec<FileEntry>)
    ensures
        entry_views(list@) == newest_first_of(entry_views(files@)),
{
    let ghost all = entry_views(files@);
    let mut list: Vec<FileEntry> = Vec::new();
    let mut i: usize = 0;
    assert(entry_views(list@) =~= newest_first_of(all.take(0)));
    while i < files.len()
        invariant
            i <= files.len(),
            all == entry_views(files@),
            entry_views(list@) == newest_first_of(all.take(i as int)),
        decreases files.len() - i,
    {
        assert(all.take(i + 1).drop_last() =~= all.take(i as int));
        assert(all.take(i + 1).last() == files@[i as int]@);
        if paths::stem_of(files[i].name.as_str(), "md").is_some() {
            let e = FileEntry { name: files[i].name.clone(), modified: files[i].modified };
            let n: usize = find_place(&list, &e);
            let ghost before = entry_views(list@);
            list.insert(n, e);
            assert(entry_views(list@) =~= before.insert(n as int, e@));
        }
        i += 1;
    }
    assert(all.take(all.len() as int) =~= all);
    list
}

/// The sessions of a client are listed from the newest to the oldest, and each
/// file that keeps one is in the list as often as in the directory.
pub proof fn law_newest_first(files: Seq<FileEntryView>)
    ensures
        forall|i: int, j: int|
            0 <= i < j < newest_first_of(files).len() ==> !is_later(
                (#[trigger] newest_first_of(files)[j]).modified,
                (#[trigger] newest_first_of(files)[i]).modified,
            ),
        newest_first_of(files).to_multiset() == files.filter(
            |e: FileEntryView| is_session_file(e),
        ).to_multiset(),
    decreases files.len(),
{
    let keep = |e: FileEntryView| is_session_file(e);
    let all = newest_first_of(files);
    reveal(Seq::filter);
    if files.len() == 0 {
        assert(files.filter(keep) =~= Seq::empty());
    } else {
        let e = files.last();
        let list = newest_first_of(files.drop_last());
        law_newest_first(files.drop_last());
        if is_session_file(e) {
            lemma_place(list, e);
            let n = place_of(list, e);
            vstd::seq_lib::to_multiset_insert(list, n, e);
            broadcast use vstd::seq_lib::group_to_multiset_ensures;

            assert(files.filter(keep) =~= files.drop_last().filter(keep).push(e));
            assert forall|i: int, j: int| 0 <= i < j < all.len() implies !is_later(
                (#[trigger] all[j]).modified,
                (#[trigger] all[i]).modified,
            ) by {
                if i == n {
                    assert(all[j] == list[j - 1]);
                    assert(!is_later(list[n].modified, e.modified));
                    assert(n < j - 1 ==> !is_later(list[j - 1].modified, list[n].modified));
                } else if j == n {
                    assert(all[i] == list[i]);
                } else {
                    let x = if i < n {
                        i
                    } else {
                        i - 1
                    };
                    let y = if j < n {
                        j
                    } else {
                        j - 1
                    };
                    assert(all[i] == list[x]);
                    assert(all[j] == list[y]);
                }
            }
        } else {
            assert(files.filter(keep) =~= files.drop_last().filter(keep));
        }
    }
}

/// Reading what was written gives the conversation back: where every message is
/// of the user or of the model and storable, the file that is written is read
/// as the same messages in order, each with its own role and content, under the
/// same frontmatter.
pub proof fn law_saved_conversations_are_resumed(
    yaml: &str,
    messages: &Vec<Message>,
    s: String,
    content: &str,
    r: Result<SessionFile, String>,
)
    requires
        call_ensures(serialize, (yaml, messages), s),
        content@ == s@,
        call_ensures(parse, (content,), r),
        forall|i: int|
            0 <= i < messages@.len() ==> ((#[trigger] messages@[i]).role == Role::User
                || messages@[i].role == Role::Assistant) && storable(messages@[i].content@),
        yaml@.len() > 0,
        yaml@.last() == '\n',
        text::find(yaml@, "\n---"@) is None,
    ensures
        r is Ok,
        r->Ok_0.yaml@ == yaml@.drop_last(),
        r->Ok_0.messages@.len() == messages@.len(),
        forall|i: int|
            0 <= i < messages@.len() ==> (#[trigger] r->Ok_0.messages@[i]).role == messages@[i].role
                && r->Ok_0.messages@[i].content@ == messages@[i].content@,
{
    let all = dated(messages@);
    assert forall|i: int| 0 <= i < all.len() implies is_kept((#[trigger] all[i]).said.role)
        && storable(all[i].said.content) by {
        assert(all[i].said == messages@[i]@);
    }
    lemma_all_kept(all);
    law_written_session_is_read_again(yaml@, all);
    let f = r->Ok_0;
    assert(session::said(f.messages@) == undated(all));
    assert(session::said(f.messages@).len() == f.messages@.len());
    assert forall|i: int| 0 <= i < messages@.len() implies (#[trigger] f.messages@[i]).role
        == messages@[i].role && f.messages@[i].content@ == messages@[i].content@ by {
        assert(session::said(f.messages@)[i] == f.messages@[i]@);
        assert(undated(all)[i] == messages@[i]@);
    }
}

proof fn lemma_all_kept(messages: Seq<Dated>)
    requires
        forall|i: int| 0 <= i < messages.len() ==> is_kept((#[trigger] messages[i]).said.role),
    ensures
        kept(messages) == messages,
    decreases messages.len(),
{
    if messages.len() > 0 {
        let before = messages.drop_last();
        assert forall|i: int| 0 <= i < before.len() implies is_kept(
            (#[trigger] before[i]).said.role,
        ) by {
            assert(before[i] == messages[i]);
        }
        lemma_all_kept(before);
        assert(is_kept(messages[messages.len() - 1].said.role));
    }
    assert(kept(messages) =~= messages);
}

/// Sessions are listed by the time at which they were saved: of two that are
/// listed, the one that comes first was not saved earlier.
pub proof fn law_sessions_are_listed_newest_first(
    files: Vec<FileEntry>,
    list: Vec<FileEntry>,
    i: int,
    j: int,
)
    requires
        call_ensures(newest_first, (files,), list),
        0 <= i < j < list@.len(),
        list@[i].modified is Some,
        list@[j].modified is Some,
    ensures
        list@[i].modified->0.secs >= list@[j].modified->0.secs,
        list@[i].modified->0.secs == list@[j].modified->0.secs ==> list@[i].modified->0.nanos
            >= list@[j].modified->0.nanos,
{
    law_newest_first(entry_views(files@));
    let all = entry_views(list@);
    assert(all[i] == list@[i]@);
    assert(all[j] == list@[j]@);
}

} // verus!
