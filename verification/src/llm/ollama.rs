//! Ollama: requests, answers, whole or streamed line by line, and model
//! listings.

use super::deepseek;
use super::stream;
use crate::auth::Auth;
use crate::config::Config;
use crate::json;
use crate::json::{Json, JsonView};
use crate::llm;
use crate::llm::{
    ChatMessage, ChatMessageView, ChatOptions, ChatOptionsView, ChatResult, ChatResultView,
    StreamEvent, StreamEventView, ToolCall, ToolCallView, ToolDef, ToolFunction, ToolFunctionView,
    Usage,
};
use crate::strmap::StrMap;
use crate::text;
use vstd::prelude::*;
use vstd::string::*;
use vstd::utf8::*;

verus! {

/// A tool call of an answer, its arguments as JSON text.
#[derive(Debug)]
pub struct OllamaToolCall {
    pub name: String,
    pub arguments: String,
}

/// The model of [`OllamaToolCall`].
pub struct OllamaToolCallView {
    pub name: Seq<char>,
    pub arguments: Seq<char>,
}

impl View for OllamaToolCall {
    type V = OllamaToolCallView;

    open spec fn view(&self) -> OllamaToolCallView {
        OllamaToolCallView {
            name: self.name@,
            arguments: self.arguments@,
        }
    }
}

impl OllamaToolCall {
    /// The models of a sequence of values.
    pub open spec fn views(v: Seq<OllamaToolCall>) -> Seq<OllamaToolCallView> {
        v.map_values(|x: OllamaToolCall| x@)
    }
}

impl OllamaToolCall {
    /// The models of an optional list.
    pub open spec fn opt_views(v: Option<Vec<OllamaToolCall>>) -> Option<Seq<OllamaToolCallView>> {
        match v {
            Some(w) => Some(OllamaToolCall::views(w@)),
            None => None,
        }
    }
}

/// A message of an answer.
#[derive(Debug)]
pub struct OllamaMessage {
    pub content: Option<String>,
    pub tool_calls: Option<Vec<OllamaToolCall>>,
}

/// The model of [`OllamaMessage`].
pub struct OllamaMessageView {
    pub content: Option<Seq<char>>,
    pub tool_calls: Option<Seq<OllamaToolCallView>>,
}

impl View for OllamaMessage {
    type V = OllamaMessageView;

    open spec fn view(&self) -> OllamaMessageView {
        OllamaMessageView {
            content: text::opt_view(self.content),
            tool_calls: OllamaToolCall::opt_views(self.tool_calls),
        }
    }
}

impl OllamaMessage {
    /// The model of an optional message.
    pub open spec fn opt_view(v: Option<OllamaMessage>) -> Option<OllamaMessageView> {
        match v {
            Some(w) => Some(w@),
            None => None,
        }
    }
}

/// One line of a streamed answer, or a whole answer.
#[derive(Debug)]
pub struct OllamaChunk {
    pub message: Option<OllamaMessage>,
    pub done: bool,
    pub done_reason: Option<String>,
    pub prompt_eval_count: Option<u64>,
    pub eval_count: Option<u64>,
}

/// The model of [`OllamaChunk`].
pub struct OllamaChunkView {
    pub message: Option<OllamaMessageView>,
    pub done: bool,
    pub done_reason: Option<Seq<char>>,
    pub prompt_eval_count: Option<u64>,
    pub eval_count: Option<u64>,
}

impl View for OllamaChunk {
    type V = OllamaChunkView;

    open spec fn view(&self) -> OllamaChunkView {
        OllamaChunkView {
            message: OllamaMessage::opt_view(self.message),
            done: self.done,
            done_reason: text::opt_view(self.done_reason),
            prompt_eval_count: self.prompt_eval_count,
            eval_count: self.eval_count,
        }
    }
}

/// The complete lines in `buf`, without their line feeds.
pub open spec fn lines_in(buf: Seq<u8>) -> Seq<Seq<u8>>
    decreases buf.len(),
{
    match text::find(buf, seq![10u8]) {
        Some(k) => if k < buf.len() {
            seq![buf.take(k as int)] + lines_in(buf.skip((k + 1) as int))
        } else {
            Seq::empty()
        },
        None => Seq::empty(),
    }
}

/// What follows the last complete line in `buf`.
pub open spec fn unfinished_in(buf: Seq<u8>) -> Seq<u8>
    decreases buf.len(),
{
    match text::find(buf, seq![10u8]) {
        Some(k) => if k < buf.len() {
            unfinished_in(buf.skip((k + 1) as int))
        } else {
            buf
        },
        None => buf,
    }
}

/// The texts of those lines that are text and not blank.
pub open spec fn line_texts(lines: Seq<Seq<u8>>) -> Seq<Seq<char>>
    decreases lines.len(),
{
    if lines.len() == 0 {
        Seq::empty()
    } else {
        let before = line_texts(lines.drop_last());
        let last = lines.last();
        if valid_utf8(last) && text::trimmed(decode_utf8(last)).len() > 0 {
            before.push(text::trimmed(decode_utf8(last)))
        } else {
            before
        }
    }
}

/// The identifier of a tool call.
pub open spec fn call_id(name: Seq<char>, number: u64) -> Seq<char> {
    "ollama_"@ + name + "_"@ + text::decimal(number as nat)
}

/// Tool calls with the identifiers that they get, numbered from `first`.
pub open spec fn numbered(calls: Seq<OllamaToolCallView>, first: u64) -> Seq<ToolCallView> {
    Seq::new(
        calls.len(),
        |i: int|
            ToolCallView {
                id: call_id(calls[i].name, (first + i) as u64),
                call_type: "function"@,
                function: ToolFunctionView {
                    name: calls[i].name,
                    arguments: calls[i].arguments,
                },
            },
    )
}

/// The tool calls of an optional message.
pub open spec fn message_calls(message: Option<OllamaMessageView>) -> Seq<OllamaToolCallView> {
    match message {
        Some(m) => match m.tool_calls {
            Some(calls) => calls,
            None => Seq::empty(),
        },
        None => Seq::empty(),
    }
}

/// The content of an optional message.
pub open spec fn message_content(message: Option<OllamaMessageView>) -> Option<Seq<char>> {
    match message {
        Some(m) => m.content,
        None => None,
    }
}

/// A count, or zero.
pub open spec fn count(n: Option<u64>) -> u64 {
    match n {
        Some(m) => m,
        None => 0,
    }
}

/// What a chunk says of usage.
pub open spec fn chunk_usage(chunk: OllamaChunkView) -> Usage {
    Usage {
        prompt_tokens: count(chunk.prompt_eval_count),
        completion_tokens: count(chunk.eval_count),
        total_tokens: 0,
    }
}

/// What has been put together of a streamed answer.
pub struct OllamaStream {
    /// Bytes that do not make up a whole line yet.
    pub buf: Vec<u8>,
    pub text: String,
    pub calls: Vec<ToolCall>,
    pub usage: Usage,
    pub finish_reason: Option<String>,
    /// Whether the answer has been said to be complete.
    pub saw_done: bool,
}

/// The model of [`OllamaStream`].
pub struct OllamaStreamView {
    pub buf: Seq<u8>,
    pub text: Seq<char>,
    pub calls: Seq<ToolCallView>,
    pub usage: Usage,
    pub finish_reason: Option<Seq<char>>,
    pub saw_done: bool,
}

impl View for OllamaStream {
    type V = OllamaStreamView;

    open spec fn view(&self) -> OllamaStreamView {
        OllamaStreamView {
            buf: self.buf@,
            text: self.text@,
            calls: ToolCall::views(self.calls@),
            usage: self.usage,
            finish_reason: text::opt_view(self.finish_reason),
            saw_done: self.saw_done,
        }
    }
}

impl OllamaStreamView {
    /// A chunk is added. Empty content is passed over; the chunk that completes
    /// the answer says what it cost.
    pub open spec fn with_chunk(self, chunk: OllamaChunkView, first: u64) -> OllamaStreamView {
        let added = OllamaStreamView {
            text: self.text + stream::or_empty(message_content(chunk.message)),
            calls: self.calls + numbered(message_calls(chunk.message), first),
            ..self
        };
        if chunk.done {
            OllamaStreamView {
                usage: chunk_usage(chunk),
                finish_reason: chunk.done_reason,
                saw_done: true,
                ..added
            }
        } else {
            added
        }
    }

    /// The answer, as far as it has been put together.
    pub open spec fn result(self) -> ChatResultView {
        ChatResultView {
            content: stream::answer_content(self.text, self.calls),
            tool_calls: self.calls,
            usage: self.usage,
            reasoning_content: None,
            finish_reason: self.finish_reason,
        }
    }
}

/// What is handed out for a chunk.
pub open spec fn chunk_events(chunk: OllamaChunkView) -> Seq<StreamEventView> {
    match message_content(chunk.message) {
        Some(t) => if t.len() > 0 {
            seq![StreamEventView::Chunk(t)]
        } else {
            Seq::empty()
        },
        None => Seq::empty(),
    }
}

/// A whole answer.
pub open spec fn whole_answer(chunk: OllamaChunkView, first: u64) -> ChatResultView {
    ChatResultView {
        content: message_content(chunk.message),
        tool_calls: numbered(message_calls(chunk.message), first),
        usage: chunk_usage(chunk),
        reasoning_content: None,
        finish_reason: chunk.done_reason,
    }
}

/// Where the first line feed in `buf` is.
fn find_line_feed(buf: &Vec<u8>) -> (r: Option<usize>)
    ensures
        match r {
            Some(k) => k < buf@.len() && text::find(buf@, seq![10u8]) == Some(k as nat),
            None => text::find(buf@, seq![10u8]) is None,
        },
{
    let ghost lf = seq![10u8];
    let mut i: usize = 0;
    assert(buf@.skip(0) =~= buf@);
    while i < buf.len()
        invariant
            i <= buf@.len(),
            lf == seq![10u8],
            text::find(buf@, lf) == match text::find(buf@.skip(i as int), lf) {
                Some(k) => Some((k + i) as nat),
                None => None,
            },
        decreases buf@.len() - i,
    {
        let ghost rest = buf@.skip(i as int);
        if buf[i] == 10u8 {
            assert(rest.take(1) =~= lf);
            return Some(i);
        }
        assert(rest.take(1)[0] == buf@[i as int]);
        assert(rest.skip(1) =~= buf@.skip(i + 1));
        i += 1;
    }
    None
}

/// The tool calls of a chunk with their identifiers.
fn number_calls(chunk: &OllamaChunk, first: u64) -> (out: Vec<ToolCall>)
    requires
        first + message_calls(chunk@.message).len() <= u64::MAX,
    ensures
        ToolCall::views(out@) == numbered(message_calls(chunk@.message), first),
{
    let mut out: Vec<ToolCall> = Vec::new();
    let ghost all = message_calls(chunk@.message);
    match &chunk.message {
        Some(m) => {
            match &m.tool_calls {
                Some(calls) => {
                    let mut i: usize = 0;
                    while i < calls.len()
                        invariant
                            i <= calls.len(),
                            all == OllamaToolCall::views(calls@),
                            first + all.len() <= u64::MAX,
                            out.len() == i,
                            forall|k: int|
                                0 <= k < i ==> (#[trigger] out@[k])@ == numbered(all, first)[k],
                        decreases calls.len() - i,
                    {
                        let call = &calls[i];
                        assert(all[i as int] == call@);
                        let mut id = text::cat3("ollama_", call.name.as_str(), "_");
                        id.append(text::decimal_of(first + i as u64).as_str());
                        out.push(
                            ToolCall {
                                id,
                                call_type: "function".to_owned(),
                                function: ToolFunction {
                                    name: call.name.clone(),
                                    arguments: call.arguments.clone(),
                                },
                            },
                        );
                        i += 1;
                    }
                },
                None => {},
            }
        },
        None => {},
    }
    assert(ToolCall::views(out@) =~= numbered(all, first));
    out
}

fn usage_of(chunk: &OllamaChunk) -> (u: Usage)
    ensures
        u == chunk_usage(chunk@),
{
    Usage {
        prompt_tokens: match chunk.prompt_eval_count {
            Some(n) => n,
            None => 0,
        },
        completion_tokens: match chunk.eval_count {
            Some(n) => n,
            None => 0,
        },
        total_tokens: 0,
    }
}

impl OllamaStream {
    /// The start of a stream.
    pub fn new() -> (s: OllamaStream)
        ensures
            s@ == (OllamaStreamView {
                buf: Seq::empty(),
                text: Seq::empty(),
                calls: Seq::empty(),
                usage: Usage { prompt_tokens: 0, completion_tokens: 0, total_tokens: 0 },
                finish_reason: None,
                saw_done: false,
            }),
    {
        let s = OllamaStream {
            buf: Vec::new(),
            text: String::new(),
            calls: Vec::new(),
            usage: Usage::default(),
            finish_reason: None,
            saw_done: false,
        };
        assert(s@.calls =~= Seq::empty());
        assert(s@.buf =~= Seq::empty());
        s
    }

    /// Takes bytes off the wire; returns the texts of the lines that are
    /// complete now.
    pub fn feed(&mut self, chunk: &[u8]) -> (out: Vec<String>)
        ensures
            text::views(out@) == line_texts(lines_in(old(self)@.buf + chunk@)),
            final(self)@ == (OllamaStreamView {
                buf: unfinished_in(old(self)@.buf + chunk@),
                ..old(self)@
            }),
    {
        let mut buf: Vec<u8> = Vec::new();
        std::mem::swap(&mut buf, &mut self.buf);
        let mut i: usize = 0;
        while i < chunk.len()
            invariant
                i <= chunk@.len(),
                buf@ == old(self)@.buf + chunk@.take(i as int),
            decreases chunk@.len() - i,
        {
            buf.push(chunk[i]);
            assert(chunk@.take(i + 1) =~= chunk@.take(i as int).push(chunk@[i as int]));
            i += 1;
        }
        assert(chunk@.take(chunk@.len() as int) =~= chunk@);
        let ghost whole = buf@;
        let ghost mut done: Seq<Seq<u8>> = Seq::empty();
        let mut out: Vec<String> = Vec::new();
        assert(text::views(out@) =~= line_texts(done));
        assert(done + lines_in(whole) =~= lines_in(whole));
        loop
            invariant
                lines_in(whole) == done + lines_in(buf@),
                unfinished_in(whole) == unfinished_in(buf@),
                text::views(out@) == line_texts(done),
            ensures
                text::views(out@) == line_texts(lines_in(whole)),
                buf@ == unfinished_in(whole),
            decreases buf@.len(),
        {
            match find_line_feed(&buf) {
                Some(end) => {
                    let ghost before = buf@;
                    let ghost prior = done;
                    let ghost texts = text::views(out@);
                    let mut tail = buf.split_off(end);
                    let rest = tail.split_off(1);
                    proof {
                        done = prior.push(buf@);
                        assert(done.drop_last() =~= prior);
                        assert(rest@ =~= before.skip(end + 1));
                        assert(buf@ =~= before.take(end as int));
                        assert(prior + (seq![buf@] + lines_in(rest@)) =~= done + lines_in(rest@));
                    }
                    match text::utf8_text(&buf) {
                        Some(line) => {
                            let line = text::trim_str(line.as_str());
                            if !line.as_str().is_empty() {
                                out.push(line);
                                assert(text::views(out@) =~= texts.push(line@));
                            }
                        },
                        None => {},
                    }
                    buf = rest;
                },
                None => {
                    assert(done + lines_in(buf@) =~= done);
                    break;
                },
            }
        }
        self.buf = buf;
        out
    }

    /// Adds a chunk, whose tool calls are numbered from `first`.
    pub fn chunk(&mut self, chunk: &OllamaChunk, first: u64) -> (events: Vec<StreamEvent>)
        requires
            first + message_calls(chunk@.message).len() <= u64::MAX,
        ensures
            final(self)@ == old(self)@.with_chunk(chunk@, first),
            StreamEvent::views(events@) == chunk_events(chunk@),
    {
        let mut events: Vec<StreamEvent> = Vec::new();
        assert(StreamEvent::views(events@) =~= Seq::empty());
        assert(self@.text + Seq::empty() =~= self@.text);
        match &chunk.message {
            Some(m) => {
                match &m.content {
                    Some(content) => {
                        if !content.as_str().is_empty() {
                            self.text.append(content.as_str());
                            events.push(StreamEvent::Chunk(content.clone()));
                            assert(StreamEvent::views(events@) =~= seq![
                                StreamEventView::Chunk(content@),
                            ]);
                        } else {
                            assert(self@.text + content@ =~= self@.text);
                        }
                    },
                    None => {},
                }
            },
            None => {},
        }
        let ghost before = ToolCall::views(self.calls@);
        let mut calls = number_calls(chunk, first);
        let ghost added = ToolCall::views(calls@);
        self.calls.append(&mut calls);
        assert(ToolCall::views(self.calls@) =~= before + added);
        if chunk.done {
            self.saw_done = true;
            self.usage = usage_of(chunk);
            self.finish_reason = text::clone_opt(&chunk.done_reason);
        }
        events
    }

    /// The stream has ended: the answer, or an error where it was not said to
    /// be complete.
    pub fn closed(&self) -> (r: Result<ChatResult, String>)
        ensures
            match r {
                Ok(result) => self@.saw_done && result@ == self@.result(),
                Err(e) => !self@.saw_done && e@ == "Ollama stream ended before done=true"@,
            },
    {
        if !self.saw_done {
            return Err("Ollama stream ended before done=true".to_owned());
        }
        let content = if self.text.as_str().is_empty() && self.calls.len() > 0 {
            None
        } else {
            Some(self.text.clone())
        };
        Ok(
            ChatResult {
                content,
                tool_calls: ToolCall::clone_all(&self.calls),
                usage: self.usage,
                reasoning_content: None,
                finish_reason: text::clone_opt(&self.finish_reason),
            },
        )
    }
}

/// A whole answer, whose tool calls are numbered from `first`.
pub fn completion_result(chunk: &OllamaChunk, first: u64) -> (r: ChatResult)
    requires
        first + message_calls(chunk@.message).len() <= u64::MAX,
    ensures
        r@ == whole_answer(chunk@, first),
{
    let content = match &chunk.message {
        Some(m) => text::clone_opt(&m.content),
        None => None,
    };
    ChatResult {
        content,
        tool_calls: number_calls(chunk, first),
        usage: usage_of(chunk),
        reasoning_content: None,
        finish_reason: text::clone_opt(&chunk.done_reason),
    }
}

/// The body of a chat request.
pub open spec fn request(
    messages: Seq<ChatMessageView>,
    options: ChatOptionsView,
    stream: bool,
    temperature: JsonView,
) -> Seq<(Seq<char>, JsonView)> {
    let start = seq![
        ("model"@, JsonView::Text(options.model_id)),
        ("messages"@, llm::messages_json(messages)),
        ("stream"@, JsonView::Bool(stream)),
        (
            "options"@,
            JsonView::Object(
                seq![
                    ("temperature"@, temperature),
                    ("num_predict"@, JsonView::UInt(options.max_tokens as u64)),
                ],
            ),
        ),
    ];
    if options.tools.len() == 0 {
        start
    } else {
        start.push(("tools"@, llm::defs_json(options.tools)))
    }
}

/// How Ollama is talked to.
#[derive(Debug)]
pub struct OllamaProvider {
    pub base_url: String,
}

impl OllamaProvider {
    /// Ollama, as it is configured. It takes no credentials.
    pub fn new(config: &Config, _auth: &Auth, env: &StrMap<String>) -> (r: Result<
        OllamaProvider,
        String,
    >)
        ensures
            match config.ollama_url(env@) {
                Ok(url) => r matches Ok(p) && p.base_url@ == url,
                Err(e) => r matches Err(error) && error@ == e,
            },
    {
        match config.ollama_base_url(env) {
            Ok(base_url) => Ok(OllamaProvider { base_url }),
            Err(e) => Err(e),
        }
    }

    /// Where chat requests go.
    pub fn chat_url(&self) -> (s: String)
        ensures
            s@ == self.base_url@ + "/api/chat"@,
    {
        text::cat2(self.base_url.as_str(), "/api/chat")
    }

    /// Where the models are listed.
    pub fn models_url(&self) -> (s: String)
        ensures
            s@ == self.base_url@ + "/api/tags"@,
    {
        text::cat2(self.base_url.as_str(), "/api/tags")
    }

    /// What is reported when Ollama answers with an error.
    pub fn api_error(&self, status: &str, body: &str) -> (s: String)
        ensures
            s@ == deepseek::refusal_text("Ollama API error ("@, status@, body@),
    {
        let mut s = "Ollama API error (".to_owned();
        deepseek::append_refusal(&mut s, status, body);
        s
    }

    /// The body of a chat request.
    pub fn build_request(
        &self,
        messages: &Vec<ChatMessage>,
        options: &ChatOptions,
        stream: bool,
        temperature: Json,
    ) -> (body: Json)
        ensures
            body@ == JsonView::Object(
                request(ChatMessage::views(messages@), options@, stream, temperature@),
            ),
    {
        let mut sampling = Json::no_members();
        Json::push_member(&mut sampling, "temperature", temperature);
        Json::push_member(&mut sampling, "num_predict", Json::UInt(options.max_tokens as u64));
        let sampling = Json::object(sampling);
        assert(sampling@->Object_0 =~= seq![
            ("temperature"@, temperature@),
            ("num_predict"@, JsonView::UInt(options.max_tokens as u64)),
        ]);
        let mut members = Json::no_members();
        Json::push_member(&mut members, "model", Json::string(options.model_id.as_str()));
        Json::push_member(&mut members, "messages", ChatMessage::all_to_json(messages));
        Json::push_member(&mut members, "stream", Json::Bool(stream));
        Json::push_member(&mut members, "options", sampling);
        if options.tools.len() > 0 {
            Json::push_member(&mut members, "tools", ToolDef::all_to_json(&options.tools));
        }
        assert(json::members_view(members@) =~= request(
            ChatMessage::views(messages@),
            options@,
            stream,
            temperature@,
        ));
        Json::object(members)
    }
}

/// The names of the models that the items of a listing give.
pub open spec fn item_names(items: Seq<JsonView>) -> Seq<Seq<char>>
    decreases items.len(),
{
    if items.len() == 0 {
        Seq::empty()
    } else {
        let before = item_names(items.drop_last());
        match json::json_text(items.last(), "name"@) {
            Some(name) => before.push(name),
            None => before,
        }
    }
}

/// The names of the models in a listing.
pub open spec fn listed_models(value: JsonView) -> Seq<Seq<char>> {
    match json::json_get(value, "models"@) {
        Some(JsonView::List(items)) => item_names(items),
        _ => Seq::empty(),
    }
}

/// The names of the models in a listing.
pub fn model_names(value: &Json) -> (out: Vec<String>)
    ensures
        text::views(out@) == listed_models(value@),
{
    let mut out: Vec<String> = Vec::new();
    assert(text::views(out@) =~= Seq::empty());
    match value.get("models") {
        Some(Json::List(items)) => {
            let ghost all = json::json_get(value@, "models"@)->0->List_0;
            let mut i: usize = 0;
            assert(all.take(0) =~= Seq::empty());
            while i < items.len()
                invariant
                    i <= items.len(),
                    all.len() == items.len(),
                    forall|k: int| 0 <= k < items.len() ==> #[trigger] all[k] == items@[k]@,
                    text::views(out@) == item_names(all.take(i as int)),
                decreases items.len() - i,
            {
                assert(all.take(i + 1).drop_last() =~= all.take(i as int));
                assert(all.take(i + 1).last() == items@[i as int]@);
                let ghost before = out@;
                match items[i].text("name") {
                    Some(name) => {
                        out.push(name);
                        assert(text::views(out@) =~= text::views(before).push(name@));
                    },
                    None => {},
                }
                i += 1;
            }
            assert(all.take(all.len() as int) =~= all);
            out
        },
        _ => out,
    }
}

/// How the bytes are cut into pieces on the wire makes no difference: feeding
/// `a` and then `b` gives the lines that feeding both at once gives.
pub proof fn law_pieces_do_not_matter(a: Seq<u8>, b: Seq<u8>)
    ensures
        lines_in(a + b) == lines_in(a) + lines_in(unfinished_in(a) + b),
        unfinished_in(a + b) == unfinished_in(unfinished_in(a) + b),
    decreases a.len(),
{
    stream::lemma_find_in_longer(a, b, seq![10u8]);
    text::lemma_find_bounds(a, seq![10u8]);
    match text::find(a, seq![10u8]) {
        Some(k) => {
            let rest = a.skip((k + 1) as int);
            law_pieces_do_not_matter(rest, b);
            assert((a + b).skip((k + 1) as int) =~= rest + b);
            assert((a + b).take(k as int) =~= a.take(k as int));
            assert(lines_in(a + b) =~= lines_in(a) + lines_in(unfinished_in(a) + b));
        },
        None => {
            assert(lines_in(a) + lines_in(a + b) =~= lines_in(a + b));
        },
    }
}

} // verus!
