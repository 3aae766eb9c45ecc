//! Streamed answers: server-sent events, and how the parts of an answer are
//! put together.

use crate::llm::{
    ChatResult, ChatResultView, StreamEvent, StreamEventView, ToolCall, ToolCallView, ToolFunction,
    ToolFunctionView, Usage,
};
use crate::text;
use vstd::prelude::*;
use vstd::string::*;
use vstd::utf8::*;

verus! {

/// A part of the function that a streamed tool call names.
#[derive(Debug)]
pub struct ChunkToolCallFunction {
    pub name: Option<String>,
    pub arguments: Option<String>,
}

/// The model of [`ChunkToolCallFunction`].
pub struct ChunkToolCallFunctionView {
    pub name: Option<Seq<char>>,
    pub arguments: Option<Seq<char>>,
}

impl View for ChunkToolCallFunction {
    type V = ChunkToolCallFunctionView;

    open spec fn view(&self) -> ChunkToolCallFunctionView {
        ChunkToolCallFunctionView {
            name: text::opt_view(self.name),
            arguments: text::opt_view(self.arguments),
        }
    }
}

impl ChunkToolCallFunction {
    /// The model of an optional value.
    pub open spec fn opt_view(v: Option<ChunkToolCallFunction>) -> Option<
        ChunkToolCallFunctionView,
    > {
        match v {
            Some(w) => Some(w@),
            None => None,
        }
    }
}

/// A part of a streamed tool call.
#[derive(Debug)]
pub struct ChunkToolCall {
    pub index: usize,
    pub id: Option<String>,
    pub function: Option<ChunkToolCallFunction>,
}

/// The model of [`ChunkToolCall`].
pub struct ChunkToolCallView {
    pub index: usize,
    pub id: Option<Seq<char>>,
    pub function: Option<ChunkToolCallFunctionView>,
}

impl View for ChunkToolCall {
    type V = ChunkToolCallView;

    open spec fn view(&self) -> ChunkToolCallView {
        ChunkToolCallView {
            index: self.index,
            id: text::opt_view(self.id),
            function: ChunkToolCallFunction::opt_view(self.function),
        }
    }
}

impl ChunkToolCall {
    /// The models of a sequence of values.
    pub open spec fn views(v: Seq<ChunkToolCall>) -> Seq<ChunkToolCallView> {
        v.map_values(|x: ChunkToolCall| x@)
    }

    /// The models of an optional list.
    pub open spec fn opt_views(v: Option<Vec<ChunkToolCall>>) -> Option<Seq<ChunkToolCallView>> {
        match v {
            Some(w) => Some(ChunkToolCall::views(w@)),
            None => None,
        }
    }
}

/// A part of a streamed answer.
#[derive(Debug)]
pub struct ChunkDelta {
    pub content: Option<String>,
    pub tool_calls: Option<Vec<ChunkToolCall>>,
    pub reasoning_content: Option<String>,
}

/// The model of [`ChunkDelta`].
pub struct ChunkDeltaView {
    pub content: Option<Seq<char>>,
    pub tool_calls: Option<Seq<ChunkToolCallView>>,
    pub reasoning_content: Option<Seq<char>>,
}

impl View for ChunkDelta {
    type V = ChunkDeltaView;

    open spec fn view(&self) -> ChunkDeltaView {
        ChunkDeltaView {
            content: text::opt_view(self.content),
            tool_calls: ChunkToolCall::opt_views(self.tool_calls),
            reasoning_content: text::opt_view(self.reasoning_content),
        }
    }
}

/// One of the answers that a chunk carries parts of.
#[derive(Debug)]
pub struct ChunkChoice {
    pub delta: ChunkDelta,
    pub finish_reason: Option<String>,
    pub usage: Option<Usage>,
}

/// The model of [`ChunkChoice`].
pub struct ChunkChoiceView {
    pub delta: ChunkDeltaView,
    pub finish_reason: Option<Seq<char>>,
    pub usage: Option<Usage>,
}

impl View for ChunkChoice {
    type V = ChunkChoiceView;

    open spec fn view(&self) -> ChunkChoiceView {
        ChunkChoiceView {
            delta: self.delta@,
            finish_reason: text::opt_view(self.finish_reason),
            usage: self.usage,
        }
    }
}

impl ChunkChoice {
    /// The models of a sequence of values.
    pub open spec fn views(v: Seq<ChunkChoice>) -> Seq<ChunkChoiceView> {
        v.map_values(|x: ChunkChoice| x@)
    }
}

/// One message of a streamed answer.
#[derive(Debug)]
pub struct StreamChunk {
    pub choices: Vec<ChunkChoice>,
    pub usage: Option<Usage>,
}

/// The model of [`StreamChunk`].
pub struct StreamChunkView {
    pub choices: Seq<ChunkChoiceView>,
    pub usage: Option<Usage>,
}

impl View for StreamChunk {
    type V = StreamChunkView;

    open spec fn view(&self) -> StreamChunkView {
        StreamChunkView {
            choices: ChunkChoice::views(self.choices@),
            usage: self.usage,
        }
    }
}

impl StreamChunk {
    /// The model of an optional value.
    pub open spec fn opt_view(v: Option<StreamChunk>) -> Option<StreamChunkView> {
        match v {
            Some(w) => Some(w@),
            None => None,
        }
    }
}

/// A tool call whose parts are being put together.
#[derive(Debug)]
pub struct PendingToolCall {
    pub index: usize,
    pub id: Option<String>,
    pub name: Option<String>,
    pub arguments: String,
}

/// The model of [`PendingToolCall`].
pub struct PendingToolCallView {
    pub index: usize,
    pub id: Option<Seq<char>>,
    pub name: Option<Seq<char>>,
    pub arguments: Seq<char>,
}

impl View for PendingToolCall {
    type V = PendingToolCallView;

    open spec fn view(&self) -> PendingToolCallView {
        PendingToolCallView {
            index: self.index,
            id: text::opt_view(self.id),
            name: text::opt_view(self.name),
            arguments: self.arguments@,
        }
    }
}

impl PendingToolCall {
    /// The models of a sequence of values.
    pub open spec fn views(v: Seq<PendingToolCall>) -> Seq<PendingToolCallView> {
        v.map_values(|x: PendingToolCall| x@)
    }
}

/// A blank line that ends an event: two line feeds.
pub open spec fn lf_break() -> Seq<u8> {
    seq![10u8, 10u8]
}

/// A blank line that ends an event: carriage return and line feed, twice.
pub open spec fn crlf_break() -> Seq<u8> {
    seq![13u8, 10u8, 13u8, 10u8]
}

/// Where the first event in `buf` ends, and how long the blank line behind it
/// is.
pub open spec fn event_end(buf: Seq<u8>) -> Option<(nat, nat)> {
    match (text::find(buf, lf_break()), text::find(buf, crlf_break())) {
        (Some(l), Some(c)) => if c < l {
            Some((c, 4nat))
        } else {
            Some((l, 2nat))
        },
        (Some(l), None) => Some((l, 2nat)),
        (None, Some(c)) => Some((c, 4nat)),
        (None, None) => None,
    }
}

/// The complete events in `buf`.
pub open spec fn events_in(buf: Seq<u8>) -> Seq<Seq<u8>>
    decreases buf.len(),
{
    match event_end(buf) {
        Some((end, skip)) => if end + skip <= buf.len() && skip > 0 {
            seq![buf.take(end as int)] + events_in(buf.skip((end + skip) as int))
        } else {
            Seq::empty()
        },
        None => Seq::empty(),
    }
}

/// What follows the last complete event in `buf`.
pub open spec fn unfinished_in(buf: Seq<u8>) -> Seq<u8>
    decreases buf.len(),
{
    match event_end(buf) {
        Some((end, skip)) => if end + skip <= buf.len() && skip > 0 {
            unfinished_in(buf.skip((end + skip) as int))
        } else {
            buf
        },
        None => buf,
    }
}

/// What the lines of an event carry as data.
pub open spec fn line_payloads(lines: Seq<Seq<char>>) -> Seq<Seq<char>>
    decreases lines.len(),
{
    if lines.len() == 0 {
        Seq::empty()
    } else {
        let before = line_payloads(lines.drop_last());
        if text::starts_with(lines.last(), "data: "@) {
            before.push(text::trimmed(lines.last().skip("data: "@.len() as int)))
        } else {
            before
        }
    }
}

/// What an event carries as data; one that is not text carries none.
pub open spec fn event_payloads(event: Seq<u8>) -> Seq<Seq<char>> {
    if valid_utf8(event) {
        line_payloads(text::lines(decode_utf8(event)))
    } else {
        Seq::empty()
    }
}

/// What some events carry as data.
pub open spec fn payloads(events: Seq<Seq<u8>>) -> Seq<Seq<char>>
    decreases events.len(),
{
    if events.len() == 0 {
        Seq::empty()
    } else {
        payloads(events.drop_last()) + event_payloads(events.last())
    }
}

fn bytes_at(buf: &[u8], p: &[u8], at: usize) -> (b: bool)
    requires
        at <= buf@.len(),
    ensures
        b == text::starts_with(buf@.skip(at as int), p@),
{
    if p.len() > buf.len() - at {
        return false;
    }
    let total: usize = buf.len();
    let mut i: usize = 0;
    while i < p.len()
        invariant
            total == buf@.len(),
            at <= buf@.len(),
            p@.len() <= buf@.len() - at,
            i <= p@.len(),
            buf@.skip(at as int).take(i as int) == p@.take(i as int),
        decreases p@.len() - i,
    {
        if buf[at + i] != p[i] {
            assert(buf@.skip(at as int).take(p@.len() as int)[i as int] == buf@[at + i]);
            return false;
        }
        assert(buf@.skip(at as int).take(i + 1) =~= buf@.skip(at as int).take(i as int).push(
            buf@[at + i],
        ));
        assert(p@.take(i + 1) =~= p@.take(i as int).push(p@[i as int]));
        i += 1;
    }
    assert(p@.take(p@.len() as int) =~= p@);
    true
}

fn find_bytes(buf: &[u8], p: &[u8]) -> (r: Option<usize>)
    ensures
        match r {
            Some(k) => text::find(buf@, p@) == Some(k as nat) && k + p@.len() <= buf@.len(),
            None => text::find(buf@, p@) is None,
        },
{
    let mut i: usize = 0;
    assert(buf@.skip(0) =~= buf@);
    loop
        invariant
            i <= buf@.len(),
            text::find(buf@, p@) == match text::find(buf@.skip(i as int), p@) {
                Some(k) => Some((k + i) as nat),
                None => None,
            },
        decreases buf@.len() - i,
    {
        if bytes_at(buf, p, i) {
            return Some(i);
        }
        if i == buf.len() {
            return None;
        }
        assert(buf@.skip(i as int).skip(1) =~= buf@.skip(i + 1));
        i += 1;
    }
}

/// Where the first event in `buf` ends, and how long the blank line behind it
/// is.
pub fn find_event_separator(buf: &[u8]) -> (r: Option<(usize, usize)>)
    ensures
        match r {
            Some((end, skip)) => event_end(buf@) == Some((end as nat, skip as nat)) && end + skip
                <= buf@.len() && skip >= 2,
            None => event_end(buf@) is None,
        },
{
    let lf: [u8; 2] = [10u8, 10u8];
    let crlf: [u8; 4] = [13u8, 10u8, 13u8, 10u8];
    assert(lf@ =~= lf_break());
    assert(crlf@ =~= crlf_break());
    let l = find_bytes(buf, &lf);
    let c = find_bytes(buf, &crlf);
    match (l, c) {
        (Some(l), Some(c)) => if c < l {
            Some((c, 4))
        } else {
            Some((l, 2))
        },
        (Some(l), None) => Some((l, 2)),
        (None, Some(c)) => Some((c, 4)),
        (None, None) => None,
    }
}

/// Appends what an event carries as data.
fn push_event_payloads(event: &Vec<u8>, out: &mut Vec<String>)
    ensures
        text::views(final(out)@) == text::views(old(out)@) + event_payloads(event@),
{
    let ghost before = text::views(out@);
    assert(before + Seq::empty() =~= before);
    let content = match text::utf8_text(event) {
        Some(s) => s,
        None => {
            return;
        },
    };
    let lines = text::lines_of(content.as_str());
    let ghost all = text::lines(content@);
    let mut i: usize = 0;
    assert(line_payloads(all.take(0)) =~= Seq::empty());
    while i < lines.len()
        invariant
            i <= lines.len(),
            text::views(lines@) == all,
            text::views(out@) == before + line_payloads(all.take(i as int)),
        decreases lines.len() - i,
    {
        assert(all.take(i + 1).drop_last() =~= all.take(i as int));
        assert(all.take(i + 1).last() == lines@[i as int]@) by {
            assert(all[i as int] == text::views(lines@)[i as int]);
        }
        let ghost prior = text::views(out@);
        match text::strip_prefix_str(lines[i].as_str(), "data: ") {
            Some(data) => {
                let data = text::trim_str(data.as_str());
                out.push(data);
                assert(text::views(out@) =~= prior.push(data@));
                assert(text::views(out@) =~= before + line_payloads(all.take(i + 1)));
            },
            None => {},
        }
        i += 1;
    }
    assert(all.take(all.len() as int) =~= all);
}

/// What has been put together of a streamed answer.
pub struct ChatStream {
    /// Bytes that do not make up a whole event yet.
    pub buf: Vec<u8>,
    pub text: String,
    pub reasoning: Option<String>,
    /// The tool calls, in the order of their index.
    pub calls: Vec<PendingToolCall>,
    pub usage: Usage,
    pub finish_reason: Option<String>,
    /// Whether the answer is complete.
    pub finished: bool,
}

/// The model of [`ChatStream`].
pub struct ChatStreamView {
    pub buf: Seq<u8>,
    pub text: Seq<char>,
    pub reasoning: Option<Seq<char>>,
    pub calls: Seq<PendingToolCallView>,
    pub usage: Usage,
    pub finish_reason: Option<Seq<char>>,
    pub finished: bool,
}

impl View for ChatStream {
    type V = ChatStreamView;

    open spec fn view(&self) -> ChatStreamView {
        ChatStreamView {
            buf: self.buf@,
            text: self.text@,
            reasoning: text::opt_view(self.reasoning),
            calls: PendingToolCall::views(self.calls@),
            usage: self.usage,
            finish_reason: text::opt_view(self.finish_reason),
            finished: self.finished,
        }
    }
}

/// An optional text, or none.
pub open spec fn or_empty(s: Option<Seq<char>>) -> Seq<char> {
    match s {
        Some(t) => t,
        None => Seq::empty(),
    }
}

/// The first of two optional texts that there is.
pub open spec fn first_of(a: Option<Seq<char>>, b: Option<Seq<char>>) -> Option<Seq<char>> {
    match a {
        Some(_) => a,
        None => b,
    }
}

/// The name in a part of a tool call.
pub open spec fn delta_name(delta: ChunkToolCallView) -> Option<Seq<char>> {
    match delta.function {
        Some(f) => f.name,
        None => None,
    }
}

/// The arguments in a part of a tool call.
pub open spec fn delta_arguments(delta: ChunkToolCallView) -> Option<Seq<char>> {
    match delta.function {
        Some(f) => f.arguments,
        None => None,
    }
}

/// A tool call with one more part: an identifier and a name replace what was
/// known, arguments are appended.
pub open spec fn call_with(
    call: PendingToolCallView,
    delta: ChunkToolCallView,
) -> PendingToolCallView {
    PendingToolCallView {
        index: call.index,
        id: first_of(delta.id, call.id),
        name: first_of(delta_name(delta), call.name),
        arguments: call.arguments + or_empty(delta_arguments(delta)),
    }
}

/// A tool call of which nothing is known yet.
pub open spec fn new_call(index: usize) -> PendingToolCallView {
    PendingToolCallView { index, id: None, name: None, arguments: Seq::empty() }
}

/// The tool calls with one more part of the call that it belongs to.
pub open spec fn calls_with(
    calls: Seq<PendingToolCallView>,
    delta: ChunkToolCallView,
) -> Seq<PendingToolCallView>
    decreases calls.len(),
{
    if calls.len() == 0 || delta.index < calls[0].index {
        seq![call_with(new_call(delta.index), delta)] + calls
    } else if calls[0].index == delta.index {
        seq![call_with(calls[0], delta)] + calls.skip(1)
    } else {
        seq![calls[0]] + calls_with(calls.skip(1), delta)
    }
}

/// The tool calls with some more parts.
pub open spec fn calls_with_all(
    calls: Seq<PendingToolCallView>,
    deltas: Seq<ChunkToolCallView>,
) -> Seq<PendingToolCallView>
    decreases deltas.len(),
{
    if deltas.len() == 0 {
        calls
    } else {
        calls_with(calls_with_all(calls, deltas.drop_last()), deltas.last())
    }
}

/// The tool calls that have both an identifier and a name.
pub open spec fn complete_calls(calls: Seq<PendingToolCallView>) -> Seq<ToolCallView>
    decreases calls.len(),
{
    if calls.len() == 0 {
        Seq::empty()
    } else {
        let before = complete_calls(calls.drop_last());
        let last = calls.last();
        match (last.id, last.name) {
            (Some(id), Some(name)) => before.push(
                ToolCallView {
                    id,
                    call_type: "function"@,
                    function: ToolFunctionView { name, arguments: last.arguments },
                },
            ),
            _ => before,
        }
    }
}

/// The content of an answer with this text and these tool calls: an empty text
/// beside tool calls is none.
pub open spec fn answer_content(text: Seq<char>, calls: Seq<ToolCallView>) -> Option<Seq<char>> {
    if text.len() == 0 && calls.len() > 0 {
        None
    } else {
        Some(text)
    }
}

impl ChatStreamView {
    /// The answer, as far as it has been put together.
    pub open spec fn result(self) -> ChatResultView {
        let calls = complete_calls(self.calls);
        ChatResultView {
            content: answer_content(self.text, calls),
            tool_calls: calls,
            usage: self.usage,
            reasoning_content: self.reasoning,
            finish_reason: self.finish_reason,
        }
    }

    /// A part of the answer is added.
    pub open spec fn with_choice(self, choice: ChunkChoiceView) -> ChatStreamView {
        ChatStreamView {
            text: self.text + or_empty(choice.delta.content),
            reasoning: match choice.delta.reasoning_content {
                Some(r) => Some(or_empty(self.reasoning) + r),
                None => self.reasoning,
            },
            calls: match choice.delta.tool_calls {
                Some(deltas) => calls_with_all(self.calls, deltas),
                None => self.calls,
            },
            usage: match choice.usage {
                Some(u) => u,
                None => self.usage,
            },
            finish_reason: first_of(choice.finish_reason, self.finish_reason),
            ..self
        }
    }

    /// A chunk is added: its first choice counts, and what it says of usage.
    pub open spec fn with_chunk(self, chunk: StreamChunkView) -> ChatStreamView {
        let added = if chunk.choices.len() > 0 {
            self.with_choice(chunk.choices[0])
        } else {
            self
        };
        match chunk.usage {
            Some(u) => ChatStreamView { usage: u, ..added },
            None => added,
        }
    }
}

/// What is handed out for a part of the answer.
pub open spec fn choice_events(choice: ChunkChoiceView) -> Seq<StreamEventView> {
    let said = match choice.delta.content {
        Some(t) => seq![StreamEventView::Chunk(t)],
        None => Seq::empty(),
    };
    match choice.delta.reasoning_content {
        Some(r) => said.push(StreamEventView::ReasoningChunk(r)),
        None => said,
    }
}

/// What is handed out for a chunk.
pub open spec fn chunk_events(chunk: StreamChunkView) -> Seq<StreamEventView> {
    if chunk.choices.len() > 0 {
        choice_events(chunk.choices[0])
    } else {
        Seq::empty()
    }
}

fn push_stream_event(v: &mut Vec<StreamEvent>, event: StreamEvent)
    ensures
        StreamEvent::views(final(v)@) == StreamEvent::views(old(v)@).push(event@),
{
    v.push(event);
    assert(StreamEvent::views(v@) =~= StreamEvent::views(old(v)@).push(event@));
}

/// A tool call with one more part.
fn merge_call_part(call: &PendingToolCall, delta: &ChunkToolCall) -> (r: PendingToolCall)
    ensures
        r@ == call_with(call@, delta@),
{
    let id = match &delta.id {
        Some(id) => Some(id.clone()),
        None => text::clone_opt(&call.id),
    };
    let mut name = text::clone_opt(&call.name);
    let mut arguments = call.arguments.clone();
    assert(arguments@ + Seq::empty() =~= arguments@);
    match &delta.function {
        Some(f) => {
            match &f.name {
                Some(n) => {
                    name = Some(n.clone());
                },
                None => {},
            }
            match &f.arguments {
                Some(more) => {
                    arguments.append(more.as_str());
                },
                None => {},
            }
        },
        None => {},
    }
    PendingToolCall { index: call.index, id, name, arguments }
}

/// Adds a part to the tool call that it belongs to.
fn add_call_part(calls: &mut Vec<PendingToolCall>, delta: &ChunkToolCall)
    ensures
        PendingToolCall::views(final(calls)@) == calls_with(
            PendingToolCall::views(old(calls)@),
            delta@,
        ),
{
    let ghost all = PendingToolCall::views(calls@);
    let mut i: usize = 0;
    assert(all.skip(0) =~= all);
    assert(all.take(0) + calls_with(all, delta@) =~= calls_with(all, delta@));
    while i < calls.len() && calls[i].index < delta.index
        invariant
            i <= calls.len(),
            all == PendingToolCall::views(calls@),
            calls_with(all, delta@) == all.take(i as int) + calls_with(all.skip(i as int), delta@),
        decreases calls.len() - i,
    {
        let ghost rest = all.skip(i as int);
        assert(rest[0] == calls@[i as int]@);
        assert(rest.skip(1) =~= all.skip(i + 1));
        assert(all.take(i as int) + (seq![rest[0]] + calls_with(rest.skip(1), delta@))
            =~= all.take(i + 1) + calls_with(all.skip(i + 1), delta@));
        i += 1;
    }
    let ghost rest = all.skip(i as int);
    if i < calls.len() && calls[i].index == delta.index {
        assert(rest[0] == calls@[i as int]@);
        let call = merge_call_part(&calls[i], delta);
        calls.set(i, call);
        assert(PendingToolCall::views(calls@) =~= all.take(i as int) + (seq![call@] + rest.skip(
            1,
        )));
    } else {
        assert(i < calls.len() ==> rest[0] == calls@[i as int]@);
        let fresh = PendingToolCall {
            index: delta.index,
            id: None,
            name: None,
            arguments: String::new(),
        };
        let call = merge_call_part(&fresh, delta);
        calls.insert(i, call);
        assert(PendingToolCall::views(calls@) =~= all.take(i as int) + (seq![call@] + rest));
    }
}

/// The tool calls that have both an identifier and a name.
fn take_complete_calls(calls: &Vec<PendingToolCall>) -> (out: Vec<ToolCall>)
    ensures
        ToolCall::views(out@) == complete_calls(PendingToolCall::views(calls@)),
{
    let ghost all = PendingToolCall::views(calls@);
    let mut out: Vec<ToolCall> = Vec::new();
    let mut i: usize = 0;
    assert(ToolCall::views(out@) =~= complete_calls(all.take(0)));
    while i < calls.len()
        invariant
            i <= calls.len(),
            all == PendingToolCall::views(calls@),
            ToolCall::views(out@) == complete_calls(all.take(i as int)),
        decreases calls.len() - i,
    {
        assert(all.take(i + 1).drop_last() =~= all.take(i as int));
        assert(all.take(i + 1).last() == calls@[i as int]@);
        let ghost before = out@;
        let call = &calls[i];
        match (&call.id, &call.name) {
            (Some(id), Some(name)) => {
                let done = ToolCall {
                    id: id.clone(),
                    call_type: "function".to_owned(),
                    function: ToolFunction {
                        name: name.clone(),
                        arguments: call.arguments.clone(),
                    },
                };
                out.push(done);
                assert(ToolCall::views(out@) =~= ToolCall::views(before).push(done@));
            },
            _ => {},
        }
        i += 1;
    }
    assert(all.take(all.len() as int) =~= all);
    out
}

impl ChatStream {
    /// The start of a stream.
    pub fn new() -> (s: ChatStream)
        ensures
            s@ == (ChatStreamView {
                buf: Seq::empty(),
                text: Seq::empty(),
                reasoning: None,
                calls: Seq::empty(),
                usage: Usage { prompt_tokens: 0, completion_tokens: 0, total_tokens: 0 },
                finish_reason: None,
                finished: false,
            }),
    {
        let s = ChatStream {
            buf: Vec::new(),
            text: String::new(),
            reasoning: None,
            calls: Vec::new(),
            usage: Usage::default(),
            finish_reason: None,
            finished: false,
        };
        assert(s@.calls =~= Seq::empty());
        assert(s@.buf =~= Seq::empty());
        s
    }

    /// Takes bytes off the wire; returns what the events that are complete now
    /// carry as data.
    pub fn feed(&mut self, chunk: &[u8]) -> (out: Vec<String>)
        ensures
            text::views(out@) == payloads(events_in(old(self)@.buf + chunk@)),
            final(self)@ == (ChatStreamView {
                buf: unfinished_in(old(self)@.buf + chunk@),
                ..old(self)@
            }),
    {
        let mut buf: Vec<u8> = Vec::new();
        std::mem::swap(&mut buf, &mut self.buf);
        let mut i: usize = 0;
        while i < chunk.len()
            invariant
                i <= chunk@.len(),
                buf@ == old(self)@.buf + chunk@.take(i as int),
            decreases chunk@.len() - i,
        {
            buf.push(chunk[i]);
            assert(chunk@.take(i + 1) =~= chunk@.take(i as int).push(chunk@[i as int]));
            i += 1;
        }
        assert(chunk@.take(chunk@.len() as int) =~= chunk@);
        let ghost whole = buf@;
        let ghost mut done: Seq<Seq<u8>> = Seq::empty();
        let mut out: Vec<String> = Vec::new();
        assert(text::views(out@) =~= payloads(done));
        assert(done + events_in(whole) =~= events_in(whole));
        loop
            invariant
                events_in(whole) == done + events_in(buf@),
                unfinished_in(whole) == unfinished_in(buf@),
                text::views(out@) == payloads(done),
            ensures
                text::views(out@) == payloads(events_in(whole)),
                buf@ == unfinished_in(whole),
            decreases buf@.len(),
        {
            match find_event_separator(buf.as_slice()) {
                Some((end, skip)) => {
                    let ghost before = buf@;
                    let ghost prior = done;
                    let mut tail = buf.split_off(end);
                    let rest = tail.split_off(skip);
                    push_event_payloads(&buf, &mut out);
                    proof {
                        done = prior.push(buf@);
                        assert(done.drop_last() =~= prior);
                        assert(rest@ =~= before.skip((end + skip) as int));
                        assert(buf@ =~= before.take(end as int));
                        assert(prior + (seq![buf@] + events_in(rest@)) =~= done + events_in(rest@));
                    }
                    buf = rest;
                },
                None => {
                    assert(done + events_in(buf@) =~= done);
                    break;
                },
            }
        }
        self.buf = buf;
        out
    }

    /// The answer, as far as it has been put together.
    pub fn result(&self) -> (r: ChatResult)
        ensures
            r@ == self@.result(),
    {
        let tool_calls = take_complete_calls(&self.calls);
        let content = if self.text.as_str().is_empty() && tool_calls.len() > 0 {
            None
        } else {
            Some(self.text.clone())
        };
        ChatResult {
            content,
            tool_calls,
            usage: self.usage,
            reasoning_content: text::clone_opt(&self.reasoning),
            finish_reason: text::clone_opt(&self.finish_reason),
        }
    }

    /// Adds a part of the answer.
    fn add_choice(&mut self, choice: &ChunkChoice) -> (events: Vec<StreamEvent>)
        ensures
            final(self)@ == old(self)@.with_choice(choice@),
            StreamEvent::views(events@) == choice_events(choice@),
    {
        let mut events: Vec<StreamEvent> = Vec::new();
        assert(StreamEvent::views(events@) =~= Seq::empty());
        assert(self@.text + Seq::empty() =~= self@.text);
        match &choice.delta.content {
            Some(piece) => {
                self.text.append(piece.as_str());
                push_stream_event(&mut events, StreamEvent::Chunk(piece.clone()));
                assert(StreamEvent::views(events@) =~= seq![StreamEventView::Chunk(piece@)]);
            },
            None => {},
        }
        match &choice.delta.reasoning_content {
            Some(piece) => {
                let so_far: String = match &self.reasoning {
                    Some(r) => r.clone(),
                    None => String::new(),
                };
                self.reasoning = Some(text::cat2(so_far.as_str(), piece.as_str()));
                push_stream_event(&mut events, StreamEvent::ReasoningChunk(piece.clone()));
            },
            None => {},
        }
        match &choice.delta.tool_calls {
            Some(deltas) => {
                let ghost start = PendingToolCall::views(self.calls@);
                let ghost all = ChunkToolCall::views(deltas@);
                let ghost held = *self;
                let mut calls: Vec<PendingToolCall> = Vec::new();
                std::mem::swap(&mut calls, &mut self.calls);
                let mut i: usize = 0;
                assert(all.take(0) =~= Seq::empty());
                while i < deltas.len()
                    invariant
                        i <= deltas.len(),
                        all == ChunkToolCall::views(deltas@),
                        PendingToolCall::views(calls@) == calls_with_all(
                            start,
                            all.take(i as int),
                        ),
                    decreases deltas.len() - i,
                {
                    add_call_part(&mut calls, &deltas[i]);
                    assert(all.take(i + 1).drop_last() =~= all.take(i as int));
                    assert(all.take(i + 1).last() == deltas@[i as int]@);
                    i += 1;
                }
                assert(all.take(all.len() as int) =~= all);
                self.calls = calls;
            },
            None => {},
        }
        match &choice.finish_reason {
            Some(reason) => {
                self.finish_reason = Some(reason.clone());
            },
            None => {},
        }
        match choice.usage {
            Some(u) => {
                self.usage = u;
            },
            None => {},
        }
        events
    }

    /// Takes what an event carries as data, with the chunk that it denotes
    /// where it denotes one. The marker `[DONE]` completes the answer, and
    /// nothing of it is kept.
    pub fn payload(&mut self, data: &str, chunk: Option<StreamChunk>) -> (events: Vec<StreamEvent>)
        ensures
            data@ == "[DONE]"@ ==> final(self)@ == (ChatStreamView {
                text: Seq::empty(),
                reasoning: None,
                calls: Seq::empty(),
                finished: true,
                ..old(self)@
            }) && StreamEvent::views(events@) == seq![StreamEventView::Done(old(self)@.result())],
            data@ != "[DONE]"@ ==> match chunk {
                Some(c) => final(self)@ == old(self)@.with_chunk(c@) && StreamEvent::views(events@)
                    == chunk_events(c@),
                None => final(self)@ == old(self)@ && events@.len() == 0,
            },
    {
        let mut events: Vec<StreamEvent> = Vec::new();
        assert(StreamEvent::views(events@) =~= Seq::empty());
        if text::same(data, "[DONE]") {
            let result = self.result();
            self.text = String::new();
            self.reasoning = None;
            self.calls = Vec::new();
            self.finished = true;
            assert(self@.text =~= Seq::empty());
            assert(self@.calls =~= Seq::empty());
            push_stream_event(&mut events, StreamEvent::Done(result));
            assert(StreamEvent::views(events@) =~= seq![StreamEventView::Done(result@)]);
            return events;
        }
        match chunk {
            Some(c) => {
                if c.choices.len() > 0 {
                    assert(c@.choices[0] == c.choices@[0]@);
                    events = self.add_choice(&c.choices[0]);
                }
                match c.usage {
                    Some(u) => {
                        self.usage = u;
                    },
                    None => {},
                }
            },
            None => {},
        }
        events
    }
}

/// What `find` finds in a prefix it finds in the whole.
pub proof fn lemma_find_in_longer<T>(a: Seq<T>, b: Seq<T>, p: Seq<T>)
    requires
        p.len() > 0,
    ensures
        match text::find(a, p) {
            Some(k) => text::find(a + b, p) == Some(k),
            None => text::find(a + b, p) matches Some(k) ==> k + p.len() > a.len(),
        },
    decreases a.len(),
{
    text::lemma_find_bounds(a, p);
    if a.len() > 0 {
        if text::starts_with(a, p) {
            assert((a + b).take(p.len() as int) =~= a.take(p.len() as int));
        } else {
            lemma_find_in_longer(a.skip(1), b, p);
            assert((a + b).skip(1) =~= a.skip(1) + b);
            if text::starts_with(a + b, p) && p.len() <= a.len() {
                assert((a + b).take(p.len() as int) =~= a.take(p.len() as int));
            }
        }
    }
}

proof fn lemma_event_end_in_longer(a: Seq<u8>, b: Seq<u8>)
    ensures
        event_end(a) is Some ==> event_end(a + b) == event_end(a),
        event_end(a) matches Some((end, skip)) ==> end + skip <= a.len() && skip >= 2,
{
    lemma_find_in_longer(a, b, lf_break());
    lemma_find_in_longer(a, b, crlf_break());
    text::lemma_find_bounds(a, lf_break());
    text::lemma_find_bounds(a, crlf_break());
    text::lemma_find_bounds(a + b, crlf_break());
    if let (Some(l), None, Some(c)) = (
        text::find(a, lf_break()),
        text::find(a, crlf_break()),
        text::find(a + b, crlf_break()),
    ) {
        if c < l {
            assert(a.skip(l as int).take(2)[1] == a[(l + 1) as int]);
            assert((a + b).skip(c as int).take(4)[2] == (a + b)[(c + 2) as int]);
            assert(lf_break()[1] == 10u8);
            assert(crlf_break()[2] == 13u8);
        }
    }
}

/// How the bytes are cut into pieces on the wire makes no difference: feeding
/// `a` and then `b` gives the events that feeding both at once gives.
pub proof fn law_pieces_do_not_matter(a: Seq<u8>, b: Seq<u8>)
    ensures
        events_in(a + b) == events_in(a) + events_in(unfinished_in(a) + b),
        unfinished_in(a + b) == unfinished_in(unfinished_in(a) + b),
    decreases a.len(),
{
    lemma_event_end_in_longer(a, b);
    match event_end(a) {
        Some((end, skip)) => {
            let rest = a.skip((end + skip) as int);
            law_pieces_do_not_matter(rest, b);
            assert((a + b).skip((end + skip) as int) =~= rest + b);
            assert((a + b).take(end as int) =~= a.take(end as int));
            assert(events_in(a + b) =~= events_in(a) + events_in(unfinished_in(a) + b));
        },
        None => {
            assert(events_in(a) + events_in(a + b) =~= events_in(a + b));
        },
    }
}

/// Whether tool calls stand in the order of their index, each index once.
pub open spec fn in_order(calls: Seq<PendingToolCallView>) -> bool {
    forall|i: int, j: int|
        0 <= i < j < calls.len() ==> (#[trigger] calls[i]).index < (#[trigger] calls[j]).index
}

/// However their parts come in, tool calls stand in the order of their index.
pub proof fn law_calls_stay_in_order(calls: Seq<PendingToolCallView>, delta: ChunkToolCallView)
    requires
        in_order(calls),
    ensures
        in_order(calls_with(calls, delta)),
        calls_with(calls, delta).len() >= 1,
        calls.len() > 0 && calls[0].index < delta.index ==> calls_with(calls, delta)[0].index
            == calls[0].index,
        calls.len() == 0 || delta.index <= calls[0].index ==> calls_with(calls, delta)[0].index
            == delta.index,
    decreases calls.len(),
{
    if calls.len() == 0 || delta.index <= calls[0].index {
    } else {
        law_calls_stay_in_order(calls.skip(1), delta);
        let rest = calls_with(calls.skip(1), delta);
        let all = calls_with(calls, delta);
        assert(rest[0].index > calls[0].index);
        assert forall|i: int, j: int| 0 <= i < j < all.len() implies (#[trigger] all[i]).index < (
        #[trigger] all[j]).index by {
            assert(all[j] == rest[j - 1]);
            if i > 0 {
                assert(all[i] == rest[i - 1]);
            } else if j > 1 {
                assert(rest[0].index < rest[j - 1].index);
            }
        }
    }
}

/// The text that a chunk adds to the answer, if it adds any.
pub open spec fn chunk_content(chunk: StreamChunkView) -> Option<Seq<char>> {
    if chunk.choices.len() > 0 {
        chunk.choices[0].delta.content
    } else {
        None
    }
}

/// The texts that chunks add to the answer, in order.
pub open spec fn contents(chunks: Seq<StreamChunkView>) -> Seq<Seq<char>>
    decreases chunks.len(),
{
    if chunks.len() == 0 {
        Seq::empty()
    } else {
        let before = contents(chunks.drop_last());
        match chunk_content(chunks.last()) {
            Some(t) => before.push(t),
            None => before,
        }
    }
}

/// Texts one after the other.
pub open spec fn run_together(texts: Seq<Seq<char>>) -> Seq<char>
    decreases texts.len(),
{
    if texts.len() == 0 {
        Seq::empty()
    } else {
        run_together(texts.drop_last()) + texts.last()
    }
}

/// The pieces of text among some events.
pub open spec fn pieces(events: Seq<StreamEventView>) -> Seq<Seq<char>>
    decreases events.len(),
{
    if events.len() == 0 {
        Seq::empty()
    } else {
        let before = pieces(events.drop_last());
        match events.last() {
            StreamEventView::Chunk(t) => before.push(t),
            _ => before,
        }
    }
}

/// What is handed out for chunks that come one after the other.
pub open spec fn all_events(chunks: Seq<StreamChunkView>) -> Seq<StreamEventView>
    decreases chunks.len(),
{
    if chunks.len() == 0 {
        Seq::empty()
    } else {
        all_events(chunks.drop_last()) + chunk_events(chunks.last())
    }
}

impl ChatStreamView {
    /// Chunks are added one after the other.
    pub open spec fn with_chunks(self, chunks: Seq<StreamChunkView>) -> ChatStreamView
        decreases chunks.len(),
    {
        if chunks.len() == 0 {
            self
        } else {
            self.with_chunks(chunks.drop_last()).with_chunk(chunks.last())
        }
    }
}

pub proof fn lemma_pieces_of_both(a: Seq<StreamEventView>, b: Seq<StreamEventView>)
    ensures
        pieces(a + b) == pieces(a) + pieces(b),
    decreases b.len(),
{
    if b.len() == 0 {
        assert(a + b =~= a);
        assert(pieces(a) + pieces(b) =~= pieces(a));
    } else {
        assert((a + b).drop_last() =~= a + b.drop_last());
        assert((a + b).last() == b.last());
        lemma_pieces_of_both(a, b.drop_last());
        assert(pieces(a + b) =~= pieces(a) + pieces(b));
    }
}

proof fn lemma_chunk_pieces(chunk: StreamChunkView)
    ensures
        pieces(chunk_events(chunk)) == match chunk_content(chunk) {
            Some(t) => seq![t],
            None => Seq::empty(),
        },
        forall|i: int|
            0 <= i < chunk_events(chunk).len() ==> !(#[trigger] chunk_events(chunk)[i] is Done),
{
    let none = Seq::<StreamEventView>::empty();
    let events = chunk_events(chunk);
    assert(pieces(none) =~= Seq::empty());
    if chunk.choices.len() > 0 {
        let choice = chunk.choices[0];
        let said = match choice.delta.content {
            Some(t) => seq![StreamEventView::Chunk(t)],
            None => none,
        };
        match choice.delta.content {
            Some(t) => {
                assert(said.drop_last() =~= none);
                assert(pieces(said) =~= seq![t]);
            },
            None => {},
        }
        match choice.delta.reasoning_content {
            Some(r) => {
                assert(events.drop_last() =~= said);
                assert(events.last() == StreamEventView::ReasoningChunk(r));
            },
            None => {},
        }
    }
}

/// What a stream hands out before its end is the text of its chunks, in order
/// and nothing else of it, and no answer; the answer that it has put together
/// holds the same text. Only the marker completes it.
pub proof fn law_answer_is_what_was_streamed(start: ChatStreamView, chunks: Seq<StreamChunkView>)
    ensures
        pieces(all_events(chunks)) == contents(chunks),
        forall|i: int|
            0 <= i < all_events(chunks).len() ==> !(#[trigger] all_events(chunks)[i] is Done),
        start.with_chunks(chunks).text == start.text + run_together(contents(chunks)),
        start.with_chunks(chunks).finished == start.finished,
        start.text.len() == 0 ==> start.with_chunks(chunks).result().content == answer_content(
            run_together(contents(chunks)),
            start.with_chunks(chunks).result().tool_calls,
        ),
    decreases chunks.len(),
{
    if chunks.len() == 0 {
        assert(start.text + Seq::empty() =~= start.text);
        assert(pieces(all_events(chunks)) =~= contents(chunks));
    } else {
        let before = chunks.drop_last();
        let last = chunks.last();
        law_answer_is_what_was_streamed(start, before);
        lemma_pieces_of_both(all_events(before), chunk_events(last));
        lemma_chunk_pieces(last);
        assert(pieces(all_events(chunks)) =~= contents(chunks));
        let said = contents(before);
        match chunk_content(last) {
            Some(t) => {
                assert(said.push(t).drop_last() =~= said);
                assert(start.text + run_together(said) + t =~= start.text + (run_together(said)
                    + t));
            },
            None => {
                assert(start.text + run_together(said) + Seq::empty() =~= start.text
                    + run_together(said));
            },
        }
    }
    assert(start.text.len() == 0 ==> start.text + run_together(contents(chunks))
        =~= run_together(contents(chunks)));
}

} // verus!
