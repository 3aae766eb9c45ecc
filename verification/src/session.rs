//! Conversations as they are kept.

use crate::clock;
use crate::clock::Timestamp;
use crate::llm;
use crate::llm::{ChatMessage, ChatMessageView, Role, Usage};
use crate::protocol::{CompactionState, CompactionStateView};
use crate::text;
use vstd::prelude::*;
use vstd::string::*;

verus! {

/// The version of the server, as it is noted in session files.
pub const VERSION: &'static str = "0.1.0";

/// A message of a conversation.
#[derive(Debug)]
pub struct Message {
    pub role: Role,
    pub content: String,
    pub timestamp: Timestamp,
}

/// Who said what.
pub struct Said {
    pub role: Role,
    pub content: Seq<char>,
}

impl View for Message {
    type V = Said;

    open spec fn view(&self) -> Said {
        Said { role: self.role, content: self.content@ }
    }
}

/// What a conversation consists of.
pub open spec fn said(messages: Seq<Message>) -> Seq<Said> {
    messages.map_values(|m: Message| m@)
}

impl Message {
    /// A message that is said now.
    pub fn new(role: Role, content: String) -> (m: Message)
        ensures
            m@ == (Said { role, content: content@ }),
            m.content == content,
    {
        Message { role, content, timestamp: clock::utc_now() }
    }
}

/// Appends a message.
pub(crate) fn push_said(messages: &mut Vec<Message>, message: Message)
    ensures
        said(final(messages)@) == said(old(messages)@).push(message@),
{
    messages.push(message);
    assert(said(messages@) =~= said(old(messages)@).push(message@));
}

/// What a session file says of its session.
#[derive(Debug)]
pub struct SessionMeta {
    pub id: String,
    pub created: Timestamp,
    pub updated: Timestamp,
    pub model_provider: String,
    pub model_id: String,
    pub tokens_input: u64,
    pub tokens_output: u64,
    pub version: String,
    pub summary: Option<String>,
    pub compaction: Option<CompactionState>,
}

/// A conversation.
#[derive(Debug)]
pub struct Session {
    pub id: String,
    pub created: Timestamp,
    pub messages: Vec<Message>,
    pub model_provider: String,
    pub model_id: String,
    pub tokens_input: u64,
    pub tokens_output: u64,
    pub summary: Option<String>,
    pub compaction: Option<CompactionState>,
}

/// How many words of the first request sum a conversation up.
pub const SUMMARY_WORDS: usize = 8;

/// The first words of a text, marked where it has more.
pub open spec fn summary_text(content: Seq<char>) -> Seq<char> {
    let words = text::words(content);
    if words.len() > SUMMARY_WORDS {
        text::join(words.take(SUMMARY_WORDS as int), " "@) + "..."@
    } else {
        text::join(words, " "@)
    }
}

/// What sums up a conversation: the first thing that the user said.
pub open spec fn conversation_summary(messages: Seq<Said>) -> Option<Seq<char>>
    decreases messages.len(),
{
    if messages.len() == 0 {
        None
    } else if messages[0].role == Role::User {
        Some(summary_text(messages[0].content))
    } else {
        conversation_summary(messages.skip(1))
    }
}

/// What sums up a conversation with the model: the first thing that the user
/// said in it.
pub open spec fn history_summary(history: Seq<ChatMessageView>) -> Option<Seq<char>>
    decreases history.len(),
{
    if history.len() == 0 {
        None
    } else if history[0].role == Role::User && history[0].content is Some {
        Some(summary_text(history[0].content->0))
    } else {
        history_summary(history.skip(1))
    }
}

/// What of a conversation with the model is kept: what the user and the model
/// said, without tool calls and their results, and without what is empty.
pub open spec fn kept_messages(history: Seq<ChatMessageView>) -> Seq<Said>
    decreases history.len(),
{
    if history.len() == 0 {
        Seq::empty()
    } else {
        let before = kept_messages(history.drop_last());
        let last = history.last();
        if (last.role == Role::User || last.role == Role::Assistant) && last.content is Some
            && last.content->0.len() > 0 {
            before.push(Said { role: last.role, content: last.content->0 })
        } else {
            before
        }
    }
}

/// The first words of a text.
pub fn summarize(content: &str) -> (s: String)
    ensures
        s@ == summary_text(content@),
{
    let mut words = text::words_of(content);
    let ghost all = text::words(content@);
    if words.len() > SUMMARY_WORDS {
        words.truncate(SUMMARY_WORDS);
        assert(text::views(words@) =~= all.take(SUMMARY_WORDS as int));
        text::cat2(text::join_strs(&words, " ").as_str(), "...")
    } else {
        text::join_strs(&words, " ")
    }
}

/// The session that a session file holds.
pub open spec fn restored(meta: SessionMeta, messages: Vec<Message>) -> Session {
    Session {
        id: meta.id,
        created: meta.created,
        messages,
        model_provider: meta.model_provider,
        model_id: meta.model_id,
        tokens_input: meta.tokens_input,
        tokens_output: meta.tokens_output,
        summary: meta.summary,
        compaction: meta.compaction,
    }
}

/// Whether `m` is what the session file says of a session. When it was updated
/// is left open.
pub open spec fn describes(m: SessionMeta, s: Session) -> bool {
    &&& m.id == s.id
    &&& m.created == s.created
    &&& m.model_provider == s.model_provider
    &&& m.model_id == s.model_id
    &&& m.tokens_input == s.tokens_input
    &&& m.tokens_output == s.tokens_output
    &&& m.version@ == VERSION@
    &&& text::opt_view(m.summary) == text::opt_view(s.summary)
    &&& CompactionState::opt_view(m.compaction) == CompactionState::opt_view(s.compaction)
}

/// What the session file says of a session is enough to restore it.
pub proof fn law_sessions_are_restored(s: Session, m: SessionMeta)
    requires
        describes(m, s),
    ensures
        describes(m, restored(m, s.messages)),
        restored(m, s.messages) == (Session {
            summary: restored(m, s.messages).summary,
            compaction: restored(m, s.messages).compaction,
            ..s
        }),
        text::opt_view(restored(m, s.messages).summary) == text::opt_view(s.summary),
        CompactionState::opt_view(restored(m, s.messages).compaction) == CompactionState::opt_view(
            s.compaction,
        ),
{
}

impl Session {
    /// A new session.
    pub fn new(model_provider: String, model_id: String) -> (s: Session)
        ensures
            s.id@ == "chat-"@ + clock::or_empty(
                clock::utc_text(s.created.secs, s.created.nanos, clock::DATED_STAMP@),
            ),
            s.messages@.len() == 0,
            s.model_provider == model_provider,
            s.model_id == model_id,
            s.tokens_input == 0,
            s.tokens_output == 0,
            s.summary is None,
            s.compaction is None,
    {
        let created = clock::utc_now();
        Session {
            id: text::cat2("chat-", clock::stamp_of(created).as_str()),
            created,
            messages: Vec::new(),
            model_provider,
            model_id,
            tokens_input: 0,
            tokens_output: 0,
            summary: None,
            compaction: None,
        }
    }

    /// The session that a session file holds.
    pub fn from_meta(meta: SessionMeta, messages: Vec<Message>) -> (s: Session)
        ensures
            s == restored(meta, messages),
    {
        Session {
            id: meta.id,
            created: meta.created,
            messages,
            model_provider: meta.model_provider,
            model_id: meta.model_id,
            tokens_input: meta.tokens_input,
            tokens_output: meta.tokens_output,
            summary: meta.summary,
            compaction: meta.compaction,
        }
    }

    /// Adds what the user said.
    pub fn add_user(&mut self, content: String)
        ensures
            said(final(self).messages@) == said(old(self).messages@).push(
                Said { role: Role::User, content: content@ },
            ),
            *final(self) == (Session { messages: final(self).messages, ..*old(self) }),
    {
        let message = Message::new(Role::User, content);
        push_said(&mut self.messages, message);
    }

    /// Adds what the model said, and what it cost. The counts must not overflow.
    pub fn add_assistant(&mut self, content: String, usage: &Usage)
        requires
            old(self).tokens_input + usage.prompt_tokens <= u64::MAX,
            old(self).tokens_output + usage.completion_tokens <= u64::MAX,
        ensures
            said(final(self).messages@) == said(old(self).messages@).push(
                Said { role: Role::Assistant, content: content@ },
            ),
            *final(self) == (Session {
                messages: final(self).messages,
                tokens_input: (old(self).tokens_input + usage.prompt_tokens) as u64,
                tokens_output: (old(self).tokens_output + usage.completion_tokens) as u64,
                ..*old(self)
            }),
    {
        let message = Message::new(Role::Assistant, content);
        push_said(&mut self.messages, message);
        self.tokens_input = self.tokens_input + usage.prompt_tokens;
        self.tokens_output = self.tokens_output + usage.completion_tokens;
    }

    /// The conversation as the model is sent it.
    pub fn chat_messages(&self) -> (v: Vec<ChatMessage>)
        ensures
            ChatMessage::views(v@) == said(self.messages@).map_values(
                |m: Said| llm::text_message(m.role, m.content),
            ),
    {
        let mut v: Vec<ChatMessage> = Vec::new();
        let mut i: usize = 0;
        while i < self.messages.len()
            invariant
                i <= self.messages.len(),
                v.len() == i,
                forall|k: int|
                    0 <= k < i ==> (#[trigger] v@[k])@ == llm::text_message(
                        self.messages@[k].role,
                        self.messages@[k].content@,
                    ),
            decreases self.messages.len() - i,
        {
            let m = &self.messages[i];
            v.push(
                ChatMessage {
                    role: m.role,
                    content: Some(m.content.clone()),
                    tool_calls: None,
                    tool_call_id: None,
                    reasoning_content: None,
                },
            );
            i += 1;
        }
        assert(ChatMessage::views(v@) =~= said(self.messages@).map_values(
            |m: Said| llm::text_message(m.role, m.content),
        ));
        v
    }

    /// What sums up a conversation.
    pub fn summary_from_messages(messages: &Vec<Message>) -> (r: Option<String>)
        ensures
            text::opt_view(r) == conversation_summary(said(messages@)),
    {
        let ghost all = said(messages@);
        let mut i: usize = 0;
        assert(all.skip(0) =~= all);
        while i < messages.len()
            invariant
                i <= messages.len(),
                all == said(messages@),
                conversation_summary(all) == conversation_summary(all.skip(i as int)),
            decreases messages.len() - i,
        {
            assert(all.skip(i as int)[0] == messages@[i as int]@);
            if messages[i].role == Role::User {
                return Some(summarize(messages[i].content.as_str()));
            }
            assert(all.skip(i as int).skip(1) =~= all.skip(i + 1));
            i += 1;
        }
        None
    }

    /// The session that keeps a conversation with the model.
    pub fn from_chat_history(
        model_id: &str,
        model_provider: &str,
        _agent_name: &str,
        tokens_input: u64,
        tokens_output: u64,
        chat_history: &Vec<ChatMessage>,
    ) -> (s: Session)
        ensures
            s.id@ == "chat-"@ + clock::or_empty(
                clock::utc_text(s.created.secs, s.created.nanos, clock::DATED_STAMP@),
            ),
            said(s.messages@) == kept_messages(ChatMessage::views(chat_history@)),
            s.model_provider@ == model_provider@,
            s.model_id@ == model_id@,
            s.tokens_input == tokens_input,
            s.tokens_output == tokens_output,
            text::opt_view(s.summary) == history_summary(ChatMessage::views(chat_history@)),
            s.compaction is None,
    {
        let ghost all = ChatMessage::views(chat_history@);
        let mut s = Session::new(model_provider.to_owned(), model_id.to_owned());
        let mut messages: Vec<Message> = Vec::new();
        let mut i: usize = 0;
        assert(said(messages@) =~= kept_messages(all.take(0)));
        while i < chat_history.len()
            invariant
                i <= chat_history.len(),
                all == ChatMessage::views(chat_history@),
                said(messages@) == kept_messages(all.take(i as int)),
            decreases chat_history.len() - i,
        {
            assert(all.take(i + 1).drop_last() =~= all.take(i as int));
            assert(all.take(i + 1).last() == chat_history@[i as int]@);
            let m = &chat_history[i];
            if m.role == Role::User || m.role == Role::Assistant {
                match &m.content {
                    Some(content) => {
                        if !content.as_str().is_empty() {
                            push_said(&mut messages, Message::new(m.role, content.clone()));
                        }
                    },
                    None => {},
                }
            }
            i += 1;
        }
        assert(all.take(all.len() as int) =~= all);
        let mut summary: Option<String> = None;
        let mut j: usize = 0;
        assert(all.skip(0) =~= all);
        while j < chat_history.len()
            invariant_except_break
                j <= chat_history.len(),
                all == ChatMessage::views(chat_history@),
                history_summary(all) == history_summary(all.skip(j as int)),
                summary is None,
            ensures
                text::opt_view(summary) == history_summary(all),
            decreases chat_history.len() - j,
        {
            assert(all.skip(j as int)[0] == chat_history@[j as int]@);
            let m = &chat_history[j];
            if m.role == Role::User {
                match &m.content {
                    Some(content) => {
                        summary = Some(summarize(content.as_str()));
                        break;
                    },
                    None => {},
                }
            }
            assert(all.skip(j as int).skip(1) =~= all.skip(j + 1));
            j += 1;
        }
        s.messages = messages;
        s.tokens_input = tokens_input;
        s.tokens_output = tokens_output;
        s.summary = summary;
        s
    }

    /// What the session file says of the session.
    pub fn meta(&self) -> (m: SessionMeta)
        ensures
            describes(m, *self),
    {
        SessionMeta {
            id: self.id.clone(),
            created: self.created,
            updated: clock::utc_now(),
            model_provider: self.model_provider.clone(),
            model_id: self.model_id.clone(),
            tokens_input: self.tokens_input,
            tokens_output: self.tokens_output,
            version: VERSION.to_owned(),
            summary: text::clone_opt(&self.summary),
            compaction: CompactionState::clone_opt(&self.compaction),
        }
    }
}

/// Whether something was said: by the user or the model, and not nothing.
pub open spec fn was_said(m: ChatMessageView) -> bool {
    &&& m.role == Role::User || m.role == Role::Assistant
    &&& m.content is Some
    &&& m.content->0.len() > 0
}

/// What was said in a conversation with the model, in order.
pub open spec fn spoken(history: Seq<ChatMessageView>) -> Seq<ChatMessageView> {
    history.filter(|m: ChatMessageView| was_said(m))
}

pub proof fn lemma_spoken_is_kept(history: Seq<ChatMessageView>)
    ensures
        kept_messages(history).len() == spoken(history).len(),
        forall|i: int|
            0 <= i < spoken(history).len() ==> (#[trigger] kept_messages(history)[i]).role
                == spoken(history)[i].role && Some(kept_messages(history)[i].content)
                == spoken(history)[i].content,
    decreases history.len(),
{
    reveal(Seq::filter);
    if history.len() > 0 {
        lemma_spoken_is_kept(history.drop_last());
    }
}

proof fn lemma_all_spoken(history: Seq<ChatMessageView>)
    requires
        forall|i: int| 0 <= i < history.len() ==> was_said(#[trigger] history[i]),
    ensures
        spoken(history) == history,
    decreases history.len(),
{
    reveal(Seq::filter);
    if history.len() > 0 {
        let before = history.drop_last();
        assert forall|i: int| 0 <= i < before.len() implies was_said(#[trigger] before[i]) by {
            assert(before[i] == history[i]);
        }
        lemma_all_spoken(before);
        assert(was_said(history[history.len() - 1]));
        assert(spoken(history) =~= history);
    } else {
        assert(spoken(history) =~= history);
    }
}

/// A session keeps what was said in a conversation, in order, each message with
/// its own role and content, beside the model and the tokens that were used.
/// Tool calls without a text, their results and the system prompt are left out.
pub proof fn law_sessions_keep_what_was_said(
    model_id: &str,
    model_provider: &str,
    agent_name: &str,
    tokens_input: u64,
    tokens_output: u64,
    history: &Vec<ChatMessage>,
    s: Session,
)
    requires
        call_ensures(
            Session::from_chat_history,
            (model_id, model_provider, agent_name, tokens_input, tokens_output, history),
            s,
        ),
    ensures
        ({
            let all = spoken(ChatMessage::views(history@));
            &&& s.messages@.len() == all.len()
            &&& forall|i: int|
                0 <= i < all.len() ==> (#[trigger] s.messages@[i]).role == all[i].role && Some(
                    s.messages@[i].content@,
                ) == all[i].content
            &&& s.model_id@ == model_id@
            &&& s.model_provider@ == model_provider@
            &&& s.tokens_input == tokens_input
            &&& s.tokens_output == tokens_output
            &&& s.compaction is None
        }),
{
    let all = ChatMessage::views(history@);
    lemma_spoken_is_kept(all);
    assert(said(s.messages@).len() == s.messages@.len());
    assert forall|i: int| 0 <= i < spoken(all).len() implies (#[trigger] s.messages@[i]).role
        == spoken(all)[i].role && Some(s.messages@[i].content@) == spoken(all)[i].content by {
        assert(said(s.messages@)[i] == s.messages@[i]@);
        assert(said(s.messages@)[i] == kept_messages(all)[i]);
    }
}

/// Where every message of a conversation was said by the user or the model,
/// all of them are kept, each in its place with its own role and content.
pub proof fn law_nothing_that_was_said_is_lost(
    model_id: &str,
    model_provider: &str,
    agent_name: &str,
    tokens_input: u64,
    tokens_output: u64,
    history: &Vec<ChatMessage>,
    s: Session,
)
    requires
        call_ensures(
            Session::from_chat_history,
            (model_id, model_provider, agent_name, tokens_input, tokens_output, history),
            s,
        ),
        forall|i: int| 0 <= i < history@.len() ==> was_said((#[trigger] history@[i])@),
    ensures
        s.messages@.len() == history@.len(),
        forall|i: int|
            0 <= i < history@.len() ==> (#[trigger] s.messages@[i]).role == history@[i].role
                && Some(s.messages@[i].content@) == history@[i]@.content,
{
    let all = ChatMessage::views(history@);
    assert forall|i: int| 0 <= i < all.len() implies was_said(#[trigger] all[i]) by {
        assert(all[i] == history@[i]@);
    }
    lemma_all_spoken(all);
    law_sessions_keep_what_was_said(
        model_id,
        model_provider,
        agent_name,
        tokens_input,
        tokens_output,
        history,
        s,
    );
    assert forall|i: int| 0 <= i < history@.len() implies (#[trigger] s.messages@[i]).role
        == history@[i].role && Some(s.messages@[i].content@) == history@[i]@.content by {
        assert(all[i] == history@[i]@);
    }
}

/// A session that is resumed gives the model the conversation that it keeps:
/// the messages in order, each with its own role and content.
pub proof fn law_resumed_sessions_give_the_conversation(s: &Session, v: Vec<ChatMessage>)
    requires
        call_ensures(Session::chat_messages, (s,), v),
    ensures
        v@.len() == s.messages@.len(),
        forall|i: int|
            0 <= i < v@.len() ==> (#[trigger] v@[i]).role == s.messages@[i].role && v@[i]@.content
                == Some(s.messages@[i].content@) && v@[i]@.tool_calls is None
                && v@[i]@.tool_call_id is None,
{
    let all = ChatMessage::views(v@);
    assert(all.len() == v@.len());
    assert forall|i: int| 0 <= i < v@.len() implies (#[trigger] v@[i]).role == s.messages@[i].role
        && v@[i]@.content == Some(s.messages@[i].content@) && v@[i]@.tool_calls is None
        && v@[i]@.tool_call_id is None by {
        assert(all[i] == v@[i]@);
        assert(said(s.messages@)[i] == s.messages@[i]@);
    }
}

/// A text of few words sums itself up; of a longer one the first words are
/// taken, and the end is marked as missing.
pub open spec fn sums_up(summary: Seq<char>, content: Seq<char>) -> bool {
    let words = text::words(content);
    if words.len() <= 8 {
        summary == text::join(words, " "@)
    } else {
        summary == text::join(words.take(8), " "@) + "..."@
    }
}

proof fn lemma_history_summary(history: Seq<ChatMessageView>, k: int)
    requires
        0 <= k < history.len(),
        history[k].role == Role::User,
        history[k].content is Some,
        forall|i: int|
            0 <= i < k ==> (#[trigger] history[i]).role != Role::User || history[i].content is None,
    ensures
        history_summary(history) matches Some(t) && sums_up(t, history[k].content->0),
    decreases k,
{
    if k > 0 {
        let rest = history.skip(1);
        assert(history[0].role != Role::User || history[0].content is None);
        assert forall|i: int| 0 <= i < k - 1 implies (#[trigger] rest[i]).role != Role::User
            || rest[i].content is None by {
            assert(rest[i] == history[i + 1]);
        }
        assert(rest[k - 1] == history[k]);
        lemma_history_summary(rest, k - 1);
    }
}

proof fn lemma_conversation_summary(messages: Seq<Said>, k: int)
    requires
        0 <= k < messages.len(),
        messages[k].role == Role::User,
        forall|i: int| 0 <= i < k ==> (#[trigger] messages[i]).role != Role::User,
    ensures
        conversation_summary(messages) matches Some(t) && sums_up(t, messages[k].content),
    decreases k,
{
    if k > 0 {
        let rest = messages.skip(1);
        assert(messages[0].role != Role::User);
        assert forall|i: int| 0 <= i < k - 1 implies (#[trigger] rest[i]).role != Role::User by {
            assert(rest[i] == messages[i + 1]);
        }
        assert(rest[k - 1] == messages[k]);
        lemma_conversation_summary(rest, k - 1);
    }
}

/// What sums up a session is what the user said first.
pub proof fn law_first_request_sums_up(
    model_id: &str,
    model_provider: &str,
    agent_name: &str,
    tokens_input: u64,
    tokens_output: u64,
    history: &Vec<ChatMessage>,
    s: Session,
    k: int,
)
    requires
        call_ensures(
            Session::from_chat_history,
            (model_id, model_provider, agent_name, tokens_input, tokens_output, history),
            s,
        ),
        0 <= k < history@.len(),
        history@[k].role == Role::User,
        history@[k].content is Some,
        forall|i: int|
            0 <= i < k ==> (#[trigger] history@[i]).role != Role::User || history@[i].content
                is None,
    ensures
        s.summary matches Some(t) && sums_up(t@, history@[k].content->0@),
{
    let all = ChatMessage::views(history@);
    assert(all[k] == history@[k]@);
    assert forall|i: int| 0 <= i < k implies (#[trigger] all[i]).role != Role::User
        || all[i].content is None by {
        assert(all[i] == history@[i]@);
    }
    lemma_history_summary(all, k);
}

/// What sums up some messages is what the user said first in them.
pub proof fn law_first_message_sums_up(messages: &Vec<Message>, r: Option<String>, k: int)
    requires
        call_ensures(Session::summary_from_messages, (messages,), r),
        0 <= k < messages@.len(),
        messages@[k].role == Role::User,
        forall|i: int| 0 <= i < k ==> (#[trigger] messages@[i]).role != Role::User,
    ensures
        r matches Some(t) && sums_up(t@, messages@[k].content@),
{
    let all = said(messages@);
    assert(all[k] == messages@[k]@);
    assert forall|i: int| 0 <= i < k implies (#[trigger] all[i]).role != Role::User by {
        assert(all[i] == messages@[i]@);
    }
    lemma_conversation_summary(all, k);
}

/// What a session file says of a session is what the session is: each field
/// under its own name. A session that is made from that has the same fields
/// again, and the messages that the file holds.
pub proof fn law_session_files_describe_their_session(
    s: &Session,
    m: SessionMeta,
    messages: Vec<Message>,
    again: Session,
)
    requires
        call_ensures(Session::meta, (s,), m),
        call_ensures(Session::from_meta, (m, messages), again),
    ensures
        m.id@ == s.id@,
        m.created == s.created,
        m.model_provider@ == s.model_provider@,
        m.model_id@ == s.model_id@,
        m.tokens_input == s.tokens_input,
        m.tokens_output == s.tokens_output,
        text::opt_view(m.summary) == text::opt_view(s.summary),
        CompactionState::opt_view(m.compaction) == CompactionState::opt_view(s.compaction),
        again.id@ == s.id@,
        again.created == s.created,
        again.messages == messages,
        again.model_provider@ == s.model_provider@,
        again.model_id@ == s.model_id@,
        again.tokens_input == s.tokens_input,
        again.tokens_output == s.tokens_output,
        text::opt_view(again.summary) == text::opt_view(s.summary),
        CompactionState::opt_view(again.compaction) == CompactionState::opt_view(s.compaction),
{
}

/// What the user and the model say is added behind what was said before, under
/// their own roles; what the model says is counted.
pub proof fn law_conversations_grow_at_their_end(
    s: &mut Session,
    question: String,
    t: &mut Session,
    answer: String,
    usage: &Usage,
)
    requires
        call_ensures(Session::add_user, (s, question), ()),
        old(t).tokens_input + usage.prompt_tokens <= u64::MAX,
        old(t).tokens_output + usage.completion_tokens <= u64::MAX,
        call_ensures(Session::add_assistant, (t, answer, usage), ()),
    ensures
        final(s).messages@.len() == old(s).messages@.len() + 1,
        final(s).messages@.last().role == Role::User,
        final(s).messages@.last().content@ == question@,
        final(s).tokens_input == old(s).tokens_input,
        final(s).id == old(s).id,
        final(t).messages@.len() == old(t).messages@.len() + 1,
        final(t).messages@.last().role == Role::Assistant,
        final(t).messages@.last().content@ == answer@,
        final(t).tokens_input == old(t).tokens_input + usage.prompt_tokens,
        final(t).tokens_output == old(t).tokens_output + usage.completion_tokens,
        final(t).id == old(t).id,
{
    let asked = said(final(s).messages@);
    assert(asked.len() == final(s).messages@.len());
    assert(said(old(s).messages@).len() == old(s).messages@.len());
    assert(asked.last() == final(s).messages@.last()@);
    let told = said(final(t).messages@);
    assert(told.len() == final(t).messages@.len());
    assert(said(old(t).messages@).len() == old(t).messages@.len());
    assert(told.last() == final(t).messages@.last()@);
}

} // verus!
