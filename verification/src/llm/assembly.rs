//! What holds of answers that are streamed: what is put together of their
//! parts.

use super::ollama;
use super::ollama::{OllamaChunk, OllamaChunkView, OllamaStream, OllamaStreamView, OllamaToolCallView};
use super::stream;
use super::stream::{
    ChatStream, ChatStreamView, ChunkToolCallView, PendingToolCallView, StreamChunk,
    StreamChunkView,
};
use crate::json;
use crate::json::{Json, JsonView};
use crate::llm::{ChatResult, StreamEvent, StreamEventView, ToolCall, ToolCallView, Usage};
use crate::text;
use vstd::prelude::*;
use vstd::string::*;
use vstd::utf8::*;

verus! {

/// Texts that are run together follow each other in order, and nothing else is
/// between them.
pub proof fn law_texts_run_together_in_order(a: Seq<Seq<char>>, b: Seq<Seq<char>>, t: Seq<char>)
    ensures
        stream::run_together(a + b) == stream::run_together(a) + stream::run_together(b),
        stream::run_together(seq![t]) == t,
        stream::run_together(a.push(t)) == stream::run_together(a) + t,
    decreases b.len(),
{
    assert(a.push(t).drop_last() =~= a);
    assert(stream::run_together(seq![t].drop_last()) =~= Seq::<char>::empty());
    assert(seq![t].last() == t);
    assert(stream::run_together(seq![t]) =~= t);
    if b.len() == 0 {
        assert(a + b =~= a);
        assert(stream::run_together(a) + Seq::empty() =~= stream::run_together(a));
    } else {
        assert((a + b).drop_last() =~= a + b.drop_last());
        law_texts_run_together_in_order(a, b.drop_last(), t);
        assert(stream::run_together(a) + stream::run_together(b.drop_last()) + b.last()
            =~= stream::run_together(a) + (stream::run_together(b.drop_last()) + b.last()));
    }
}

// ---- Ollama ----

/// A chunk, and the number that its first tool call gets.
pub type NumberedChunk = (OllamaChunkView, u64);

/// The stream after some chunks.
pub open spec fn ollama_after(start: OllamaStreamView, chunks: Seq<NumberedChunk>) -> OllamaStreamView
    decreases chunks.len(),
{
    if chunks.len() == 0 {
        start
    } else {
        ollama_after(start, chunks.drop_last()).with_chunk(chunks.last().0, chunks.last().1)
    }
}

/// What is handed out for some chunks.
pub open spec fn ollama_events(chunks: Seq<NumberedChunk>) -> Seq<StreamEventView>
    decreases chunks.len(),
{
    if chunks.len() == 0 {
        Seq::empty()
    } else {
        ollama_events(chunks.drop_last()) + ollama::chunk_events(chunks.last().0)
    }
}

/// The text in each of some chunks; one without a text has an empty one.
pub open spec fn ollama_texts(chunks: Seq<NumberedChunk>) -> Seq<Seq<char>> {
    Seq::new(
        chunks.len(),
        |i: int|
            if chunks[i].0.message is Some && chunks[i].0.message->0.content is Some {
                chunks[i].0.message->0.content->0
            } else {
                Seq::empty()
            },
    )
}

/// The text of an answer of Ollama is the texts of its chunks one after the
/// other, in the order in which they came, and the pieces that are handed out
/// on the way make up the same text. No end is handed out before the stream
/// closes.
pub proof fn law_ollama_answer_is_what_was_streamed(
    start: OllamaStreamView,
    chunks: Seq<NumberedChunk>,
)
    ensures
        ollama_after(start, chunks).text == start.text + stream::run_together(ollama_texts(chunks)),
        stream::run_together(stream::pieces(ollama_events(chunks))) == stream::run_together(
            ollama_texts(chunks),
        ),
        forall|i: int|
            0 <= i < ollama_events(chunks).len() ==> #[trigger] ollama_events(chunks)[i] is Chunk,
        ollama_after(start, chunks).buf == start.buf,
    decreases chunks.len(),
{
    let texts = ollama_texts(chunks);
    if chunks.len() == 0 {
        assert(texts =~= Seq::empty());
        assert(start.text + Seq::empty() =~= start.text);
        assert(stream::pieces(ollama_events(chunks)) =~= Seq::empty());
    } else {
        let before = chunks.drop_last();
        law_ollama_answer_is_what_was_streamed(start, before);
        assert(texts.drop_last() =~= ollama_texts(before));
        let last = chunks.last().0;
        let events = ollama::chunk_events(last);
        let told = stream::pieces(ollama_events(before));
        stream::lemma_pieces_of_both(ollama_events(before), events);
        assert(start.text + stream::run_together(texts.drop_last()) + texts.last() =~= start.text
            + (stream::run_together(texts.drop_last()) + texts.last()));
        if events.len() > 0 {
            assert(events.drop_last() =~= Seq::empty());
            assert(stream::pieces(events.drop_last()) =~= Seq::empty());
            assert(stream::pieces(events) =~= seq![texts.last()]);
            assert(told + seq![texts.last()] =~= told.push(texts.last()));
            law_texts_run_together_in_order(told, Seq::empty(), texts.last());
        } else {
            assert(events =~= Seq::empty());
            assert(stream::pieces(events) =~= Seq::empty());
            assert(told + Seq::empty() =~= told);
            assert(texts.last() =~= Seq::empty());
            assert(stream::run_together(told) + Seq::empty() =~= stream::run_together(told));
        }
    }
}

/// The tool calls in some chunks, one after the other.
pub open spec fn ollama_calls(chunks: Seq<NumberedChunk>) -> Seq<OllamaToolCallView>
    decreases chunks.len(),
{
    if chunks.len() == 0 {
        Seq::empty()
    } else {
        let last = chunks.last().0;
        ollama_calls(chunks.drop_last()) + (if last.message is Some
            && last.message->0.tool_calls is Some {
            last.message->0.tool_calls->0
        } else {
            Seq::empty()
        })
    }
}

/// Whether tool calls ask for the same tools with the same arguments, in the
/// same order.
pub open spec fn same_calls(calls: Seq<ToolCallView>, asked: Seq<OllamaToolCallView>) -> bool {
    &&& calls.len() == asked.len()
    &&& forall|i: int|
        0 <= i < calls.len() ==> (#[trigger] calls[i]).function.name == asked[i].name
            && calls[i].function.arguments == asked[i].arguments
}

/// The tool calls of an answer of Ollama are those of its chunks, in the order
/// in which they came, each with its own arguments.
pub proof fn law_ollama_calls_come_in_order(start: OllamaStreamView, chunks: Seq<NumberedChunk>)
    requires
        start.calls.len() == 0,
    ensures
        same_calls(ollama_after(start, chunks).calls, ollama_calls(chunks)),
    decreases chunks.len(),
{
    if chunks.len() > 0 {
        law_ollama_calls_come_in_order(start, chunks.drop_last());
    }
}

/// The identifier of a tool call is made of the name of its tool and its
/// number, and calls of a chunk are numbered one after the other.
pub proof fn law_ollama_calls_are_numbered(calls: Seq<OllamaToolCallView>, first: u64, i: int)
    requires
        0 <= i < calls.len(),
        first + calls.len() <= u64::MAX,
    ensures
        ollama::numbered(calls, first)[i].id == "ollama_"@ + calls[i].name + "_"@
            + crate::text::decimal((first + i) as nat),
{
}

/// A closed stream of Ollama gives the answer if one of its chunks was said to
/// complete it, and an error otherwise. The answer holds the text of all chunks
/// in order and their tool calls in order, and where the last chunk completes
/// it, that chunk says what it cost and why it ended.
pub proof fn law_ollama_gives_whole_answers(
    s: &OllamaStream,
    chunks: Seq<NumberedChunk>,
    r: Result<ChatResult, String>,
)
    requires
        s@ == ollama_after(
            OllamaStreamView {
                buf: s@.buf,
                text: Seq::empty(),
                calls: Seq::empty(),
                usage: Usage { prompt_tokens: 0, completion_tokens: 0, total_tokens: 0 },
                finish_reason: None,
                saw_done: false,
            },
            chunks,
        ),
        call_ensures(OllamaStream::closed, (s,), r),
    ensures
        r is Ok <==> exists|i: int| 0 <= i < chunks.len() && (#[trigger] chunks[i]).0.done,
        r matches Ok(result) ==> {
            let said = stream::run_together(ollama_texts(chunks));
            &&& same_calls(result@.tool_calls, ollama_calls(chunks))
            &&& result@.content == if said.len() == 0 && ollama_calls(chunks).len() > 0 {
                None
            } else {
                Some(said)
            }
            &&& chunks.len() > 0 && chunks.last().0.done ==> {
                let last = chunks.last().0;
                &&& result@.finish_reason == last.done_reason
                &&& last.prompt_eval_count matches Some(n) ==> result@.usage.prompt_tokens == n
                &&& last.eval_count matches Some(n) ==> result@.usage.completion_tokens == n
                &&& last.prompt_eval_count is None ==> result@.usage.prompt_tokens == 0
                &&& last.eval_count is None ==> result@.usage.completion_tokens == 0
            }
        },
{
    let start = OllamaStreamView {
        buf: s@.buf,
        text: Seq::empty(),
        calls: Seq::empty(),
        usage: Usage { prompt_tokens: 0, completion_tokens: 0, total_tokens: 0 },
        finish_reason: None,
        saw_done: false,
    };
    law_ollama_answer_is_what_was_streamed(start, chunks);
    law_ollama_calls_come_in_order(start, chunks);
    lemma_ollama_done(start, chunks);
    let said = stream::run_together(ollama_texts(chunks));
    assert(start.text + said =~= said);
}

proof fn lemma_ollama_done(start: OllamaStreamView, chunks: Seq<NumberedChunk>)
    requires
        !start.saw_done,
    ensures
        ollama_after(start, chunks).saw_done <==> exists|i: int|
            0 <= i < chunks.len() && (#[trigger] chunks[i]).0.done,
    decreases chunks.len(),
{
    if chunks.len() > 0 {
        let before = chunks.drop_last();
        lemma_ollama_done(start, before);
        if chunks.last().0.done {
            assert(chunks[chunks.len() - 1].0.done);
        } else {
            if exists|i: int| 0 <= i < chunks.len() && (#[trigger] chunks[i]).0.done {
                let i = choose|i: int| 0 <= i < chunks.len() && (#[trigger] chunks[i]).0.done;
                assert(before[i].0.done);
            }
            if exists|i: int| 0 <= i < before.len() && (#[trigger] before[i]).0.done {
                let i = choose|i: int| 0 <= i < before.len() && (#[trigger] before[i]).0.done;
                assert(chunks[i].0.done);
            }
        }
    }
}

// ---- chat completions ----

/// The text in each of some chunks; one without a text has an empty one.
pub open spec fn chat_texts(chunks: Seq<StreamChunkView>) -> Seq<Seq<char>> {
    Seq::new(
        chunks.len(),
        |i: int|
            if chunks[i].choices.len() > 0 && chunks[i].choices[0].delta.content is Some {
                chunks[i].choices[0].delta.content->0
            } else {
                Seq::empty()
            },
    )
}

/// The reasoning in each of some chunks; one without any has an empty one.
pub open spec fn chat_reasoning(chunks: Seq<StreamChunkView>) -> Seq<Seq<char>> {
    Seq::new(
        chunks.len(),
        |i: int|
            if chunks[i].choices.len() > 0 && chunks[i].choices[0].delta.reasoning_content is Some {
                chunks[i].choices[0].delta.reasoning_content->0
            } else {
                Seq::empty()
            },
    )
}

/// The text and the reasoning of an answer are those of its chunks one after
/// the other, in the order in which they came; there is no reasoning where no
/// chunk has any.
pub proof fn law_chat_texts_come_in_order(start: ChatStreamView, chunks: Seq<StreamChunkView>)
    requires
        start.text.len() == 0,
        start.reasoning is None,
    ensures
        ({
            let end = start.with_chunks(chunks);
            &&& end.text == stream::run_together(chat_texts(chunks))
            &&& end.reasoning matches Some(r) ==> r == stream::run_together(chat_reasoning(chunks))
            &&& end.reasoning is None ==> stream::run_together(chat_reasoning(chunks)).len() == 0
            &&& end.result().reasoning_content == end.reasoning
            &&& end.text.len() > 0 ==> end.result().content == Some(end.text)
        }),
    decreases chunks.len(),
{
    let texts = chat_texts(chunks);
    let thoughts = chat_reasoning(chunks);
    if chunks.len() == 0 {
        assert(texts =~= Seq::empty());
        assert(thoughts =~= Seq::empty());
        assert(start.text =~= Seq::empty());
    } else {
        let before = chunks.drop_last();
        law_chat_texts_come_in_order(start, before);
        assert(texts.drop_last() =~= chat_texts(before));
        assert(thoughts.drop_last() =~= chat_reasoning(before));
        let said = stream::run_together(chat_texts(before));
        let thought = stream::run_together(chat_reasoning(before));
        assert(said + Seq::empty() =~= said);
        assert(thought + Seq::empty() =~= thought);
        assert(thought.len() == 0 ==> thought =~= Seq::empty());
    }
}

/// What the last chunk says of the cost and of the reason for stopping counts;
/// what it does not say stays as it was.
pub proof fn law_last_word_counts(stream: ChatStreamView, chunk: StreamChunkView)
    ensures
        ({
            let next = stream.with_chunk(chunk);
            let reason = if chunk.choices.len() > 0 {
                chunk.choices[0].finish_reason
            } else {
                None
            };
            &&& chunk.usage matches Some(u) ==> next.usage == u
            &&& chunk.usage is None && chunk.choices.len() > 0 && chunk.choices[0].usage is Some
                ==> next.usage == chunk.choices[0].usage->0
            &&& chunk.usage is None && (chunk.choices.len() == 0 || chunk.choices[0].usage is None)
                ==> next.usage == stream.usage
            &&& reason is Some ==> next.finish_reason == reason
            &&& reason is None ==> next.finish_reason == stream.finish_reason
            &&& next.result().usage == next.usage
            &&& next.result().finish_reason == next.finish_reason
            &&& next.buf == stream.buf
            &&& next.finished == stream.finished
        }),
{
}

/// The call with an index.
pub open spec fn call_at(calls: Seq<PendingToolCallView>, index: usize) -> Option<
    PendingToolCallView,
>
    decreases calls.len(),
{
    if calls.len() == 0 {
        None
    } else if calls[0].index == index {
        Some(calls[0])
    } else {
        call_at(calls.skip(1), index)
    }
}

proof fn lemma_call_at(calls: Seq<PendingToolCallView>, index: usize)
    ensures
        call_at(calls, index) is Some <==> exists|i: int|
            0 <= i < calls.len() && (#[trigger] calls[i]).index == index,
        call_at(calls, index) matches Some(c) ==> calls.contains(c) && c.index == index,
    decreases calls.len(),
{
    if calls.len() > 0 && calls[0].index != index {
        let rest = calls.skip(1);
        lemma_call_at(rest, index);
        if call_at(rest, index) is Some {
            let c = call_at(rest, index)->0;
            let i = choose|i: int| 0 <= i < rest.len() && rest[i] == c;
            assert(calls[i + 1] == c);
        } else if exists|i: int| 0 <= i < calls.len() && (#[trigger] calls[i]).index == index {
            let i = choose|i: int| 0 <= i < calls.len() && (#[trigger] calls[i]).index == index;
            assert(rest[i - 1].index == index);
        }
    } else if calls.len() > 0 {
        assert(calls.contains(calls[0]));
    }
}

proof fn lemma_call_at_with(
    calls: Seq<PendingToolCallView>,
    delta: ChunkToolCallView,
    index: usize,
)
    requires
        stream::in_order(calls),
    ensures
        call_at(stream::calls_with(calls, delta), index) == if index == delta.index {
            Some(
                stream::call_with(
                    match call_at(calls, index) {
                        Some(c) => c,
                        None => stream::new_call(index),
                    },
                    delta,
                ),
            )
        } else {
            call_at(calls, index)
        },
    decreases calls.len(),
{
    let next = stream::calls_with(calls, delta);
    if calls.len() == 0 || delta.index < calls[0].index {
        assert(next.skip(1) =~= calls);
        lemma_call_at(calls, index);
        if index == delta.index && call_at(calls, index) is Some {
            let i = choose|i: int| 0 <= i < calls.len() && (#[trigger] calls[i]).index == index;
            assert(calls[0].index <= calls[i].index);
        }
    } else if calls[0].index == delta.index {
        assert(next.skip(1) =~= calls.skip(1));
    } else {
        let rest = calls.skip(1);
        assert forall|i: int, j: int| 0 <= i < j < rest.len() implies (#[trigger] rest[i]).index < (
        #[trigger] rest[j]).index by {
            assert(rest[i] == calls[i + 1]);
            assert(rest[j] == calls[j + 1]);
        }
        lemma_call_at_with(rest, delta, index);
        assert(next.skip(1) =~= stream::calls_with(rest, delta));
    }
}

/// The parts of the call with an index, in the order in which they came.
pub open spec fn parts_of(deltas: Seq<ChunkToolCallView>, index: usize) -> Seq<ChunkToolCallView> {
    deltas.filter(|d: ChunkToolCallView| d.index == index)
}

/// The arguments in each part of a call; one without any has empty ones.
pub open spec fn part_arguments(parts: Seq<ChunkToolCallView>) -> Seq<Seq<char>> {
    Seq::new(
        parts.len(),
        |i: int|
            if parts[i].function is Some && parts[i].function->0.arguments is Some {
                parts[i].function->0.arguments->0
            } else {
                Seq::empty()
            },
    )
}

/// However the parts of several tool calls are mixed, each call is put together
/// from its own parts in the order in which they came: its arguments are theirs
/// one after the other. There is a call for an index exactly if a part names it.
pub proof fn law_calls_are_put_together_from_their_parts(
    deltas: Seq<ChunkToolCallView>,
    index: usize,
)
    ensures
        ({
            let calls = stream::calls_with_all(Seq::empty(), deltas);
            let parts = parts_of(deltas, index);
            &&& stream::in_order(calls)
            &&& call_at(calls, index) is Some <==> parts.len() > 0
            &&& call_at(calls, index) matches Some(call) ==> call.index == index && call.arguments
                == stream::run_together(part_arguments(parts))
        }),
    decreases deltas.len(),
{
    reveal(Seq::filter);
    let calls = stream::calls_with_all(Seq::empty(), deltas);
    let parts = parts_of(deltas, index);
    if deltas.len() == 0 {
        assert(parts =~= Seq::empty());
    } else {
        let before = deltas.drop_last();
        let last = deltas.last();
        law_calls_are_put_together_from_their_parts(before, index);
        let known = stream::calls_with_all(Seq::empty(), before);
        stream::law_calls_stay_in_order(known, last);
        lemma_call_at_with(known, last, index);
        let earlier = parts_of(before, index);
        if last.index == index {
            assert(parts == earlier.push(last));
            assert(part_arguments(parts).drop_last() =~= part_arguments(earlier));
            let so_far = stream::run_together(part_arguments(earlier));
            assert(so_far + Seq::empty() =~= so_far);
            if earlier.len() == 0 {
                assert(part_arguments(earlier) =~= Seq::empty());
                assert(so_far =~= Seq::empty());
            }
        } else {
            assert(parts == earlier);
        }
    }
}

/// A part that names the call or its tool has the last word on it; one that
/// does not leaves what was known.
pub proof fn law_parts_name_their_call(
    calls: Seq<PendingToolCallView>,
    delta: ChunkToolCallView,
)
    requires
        stream::in_order(calls),
    ensures
        ({
            let call = call_at(stream::calls_with(calls, delta), delta.index);
            let known = call_at(calls, delta.index);
            &&& call is Some
            &&& delta.id is Some ==> call->0.id == delta.id
            &&& delta.id is None ==> call->0.id == if known is Some {
                known->0.id
            } else {
                None
            }
            &&& delta.function is Some && delta.function->0.name is Some ==> call->0.name
                == delta.function->0.name
            &&& delta.function is None || delta.function->0.name is None ==> call->0.name
                == if known is Some {
                known->0.name
            } else {
                None
            }
            &&& forall|other: usize|
                other != delta.index ==> #[trigger] call_at(
                    stream::calls_with(calls, delta),
                    other,
                ) == call_at(calls, other)
        }),
{
    lemma_call_at_with(calls, delta, delta.index);
    assert forall|other: usize| other != delta.index implies #[trigger] call_at(
        stream::calls_with(calls, delta),
        other,
    ) == call_at(calls, other) by {
        lemma_call_at_with(calls, delta, other);
    }
}

/// The tool calls of an answer are those that have both an identifier and a
/// name, in the order of their index, each with its own arguments.
pub proof fn law_named_calls_are_given(s: &ChatStream, r: ChatResult)
    requires
        call_ensures(ChatStream::result, (s,), r),
        forall|i: int|
            0 <= i < s@.calls.len() ==> (#[trigger] s@.calls[i]).id is Some && s@.calls[i].name
                is Some,
    ensures
        r@.tool_calls.len() == s@.calls.len(),
        forall|i: int|
            0 <= i < s@.calls.len() ==> Some((#[trigger] r@.tool_calls[i]).id) == s@.calls[i].id
                && Some(r@.tool_calls[i].function.name) == s@.calls[i].name
                && r@.tool_calls[i].function.arguments == s@.calls[i].arguments,
{
    lemma_complete_calls(s@.calls);
}

proof fn lemma_complete_calls(calls: Seq<PendingToolCallView>)
    requires
        forall|i: int|
            0 <= i < calls.len() ==> (#[trigger] calls[i]).id is Some && calls[i].name is Some,
    ensures
        stream::complete_calls(calls).len() == calls.len(),
        forall|i: int|
            0 <= i < calls.len() ==> Some((#[trigger] stream::complete_calls(calls)[i]).id)
                == calls[i].id && Some(stream::complete_calls(calls)[i].function.name)
                == calls[i].name && stream::complete_calls(calls)[i].function.arguments
                == calls[i].arguments,
    decreases calls.len(),
{
    if calls.len() > 0 {
        let before = calls.drop_last();
        assert forall|i: int| 0 <= i < before.len() implies (#[trigger] before[i]).id is Some
            && before[i].name is Some by {
            assert(before[i] == calls[i]);
        }
        lemma_complete_calls(before);
        assert(calls[calls.len() - 1].id is Some);
    }
}

// ---- lines and events ----

/// A line feed ends a line, and the lines of what follows come next; what comes
/// behind the last line feed waits for more.
pub proof fn law_streamed_lines_end_at_line_feeds(line: Seq<u8>, rest: Seq<u8>)
    requires
        forall|i: int| 0 <= i < line.len() ==> line[i] != 10u8,
    ensures
        ollama::lines_in(line + seq![10u8] + rest) == seq![line] + ollama::lines_in(rest),
        ollama::unfinished_in(line + seq![10u8] + rest) == ollama::unfinished_in(rest),
        ollama::lines_in(line).len() == 0,
        ollama::unfinished_in(line) == line,
{
    let s = line + seq![10u8] + rest;
    lemma_find_byte(s, line.len() as int);
    assert(s.take(line.len() as int) =~= line);
    assert(s.skip((line.len() + 1) as int) =~= rest);
    lemma_no_byte(line);
}

proof fn lemma_find_byte(s: Seq<u8>, k: int)
    requires
        0 <= k < s.len(),
        s[k] == 10u8,
        forall|i: int| 0 <= i < k ==> s[i] != 10u8,
    ensures
        text::find(s, seq![10u8]) == Some(k as nat),
    decreases k,
{
    if k == 0 {
        assert(s.take(1) =~= seq![10u8]);
    } else {
        assert(s.take(1)[0] == s[0]);
        assert(seq![10u8][0] == 10u8);
        lemma_find_byte(s.skip(1), k - 1);
    }
}

proof fn lemma_no_byte(s: Seq<u8>)
    requires
        forall|i: int| 0 <= i < s.len() ==> s[i] != 10u8,
    ensures
        text::find(s, seq![10u8]) is None,
    decreases s.len(),
{
    if s.len() > 0 {
        assert(s.take(1)[0] == s[0]);
        assert(seq![10u8][0] == 10u8);
        lemma_no_byte(s.skip(1));
    }
}

/// The lines that are handed on are those that are text and not blank, in
/// order, each without the whitespace around it.
pub proof fn law_streamed_lines_are_handed_on_in_order(lines: Seq<Seq<u8>>)
    ensures
        ({
            let kept = lines.filter(
                |l: Seq<u8>| valid_utf8(l) && text::trimmed(decode_utf8(l)).len() > 0,
            );
            &&& ollama::line_texts(lines).len() == kept.len()
            &&& forall|i: int|
                0 <= i < kept.len() ==> #[trigger] ollama::line_texts(lines)[i] == text::trimmed(
                    decode_utf8(kept[i]),
                )
        }),
    decreases lines.len(),
{
    reveal(Seq::filter);
    if lines.len() > 0 {
        law_streamed_lines_are_handed_on_in_order(lines.drop_last());
    }
}

/// What an event carries is what stands behind the word for data on its lines,
/// in order, without the whitespace around it.
pub proof fn law_events_carry_their_data_in_order(lines: Seq<Seq<char>>)
    ensures
        ({
            let kept = lines.filter(|l: Seq<char>| text::starts_with(l, "data: "@));
            &&& stream::line_payloads(lines).len() == kept.len()
            &&& forall|i: int|
                0 <= i < kept.len() ==> #[trigger] stream::line_payloads(lines)[i]
                    == text::trimmed(kept[i].skip(6))
        }),
    decreases lines.len(),
{
    reveal(Seq::filter);
    reveal_strlit("data: ");
    if lines.len() > 0 {
        law_events_carry_their_data_in_order(lines.drop_last());
    }
}

/// The data of several events come in the order of the events.
pub proof fn law_events_are_read_in_order(a: Seq<Seq<u8>>, b: Seq<Seq<u8>>, event: Seq<u8>)
    ensures
        stream::payloads(a + b) == stream::payloads(a) + stream::payloads(b),
        valid_utf8(event) ==> stream::payloads(seq![event]) == stream::line_payloads(
            text::lines(decode_utf8(event)),
        ),
    decreases b.len(),
{
    let none = Seq::<Seq<u8>>::empty();
    assert(seq![event].drop_last() =~= none);
    assert(seq![event].last() == event);
    assert(stream::payloads(none) =~= Seq::empty());
    assert(Seq::<Seq<char>>::empty() + stream::event_payloads(event) =~= stream::event_payloads(
        event,
    ));
    if b.len() == 0 {
        assert(a + b =~= a);
        assert(stream::payloads(a) + stream::payloads(b) =~= stream::payloads(a));
    } else {
        assert((a + b).drop_last() =~= a + b.drop_last());
        law_events_are_read_in_order(a, b.drop_last(), event);
        assert(stream::payloads(a) + stream::payloads(b.drop_last()) + stream::event_payloads(
            b.last(),
        ) =~= stream::payloads(a) + (stream::payloads(b.drop_last()) + stream::event_payloads(
            b.last(),
        )));
    }
}

/// An event ends at a blank line, and the events of what follows come next.
pub proof fn law_events_end_at_blank_lines(event: Seq<u8>, rest: Seq<u8>)
    requires
        forall|i: int|
            0 <= i < event.len() ==> #[trigger] event[i] != 13u8 && !(event[i] == 10u8 && i + 1
                < event.len() && event[i + 1] == 10u8),
        event.len() > 0 ==> event.last() != 10u8,
    ensures
        stream::events_in(event + seq![10u8, 10u8] + rest) == seq![event] + stream::events_in(rest),
        stream::unfinished_in(event + seq![10u8, 10u8] + rest) == stream::unfinished_in(rest),
{
    let s = event + seq![10u8, 10u8] + rest;
    let n = event.len() as int;
    lemma_find_break(s, stream::lf_break(), n);
    assert(s.skip(n).take(2) =~= stream::lf_break());
    lemma_not_before(s, stream::crlf_break(), n + 2);
    assert(s.take(n) =~= event);
    assert(s.skip(n + 2) =~= rest);
    text::lemma_find_bounds(s, stream::crlf_break());
}

proof fn lemma_find_break(s: Seq<u8>, p: Seq<u8>, n: int)
    requires
        p == stream::lf_break(),
        0 <= n,
        n + 2 <= s.len(),
        s[n] == 10u8,
        s[n + 1] == 10u8,
        forall|i: int| 0 <= i < n ==> !(#[trigger] s[i] == 10u8 && s[i + 1] == 10u8),
    ensures
        text::find(s, p) == Some(n as nat),
    decreases n,
{
    if n == 0 {
        assert(s.take(2) =~= p);
    } else {
        assert(s.take(2)[0] == s[0] && s.take(2)[1] == s[1]);
        assert(p[0] == 10u8 && p[1] == 10u8);
        assert(!(s[0] == 10u8 && s[0int + 1] == 10u8));
        let t = s.skip(1);
        assert forall|i: int| 0 <= i < n - 1 implies !(#[trigger] t[i] == 10u8 && t[i + 1] == 10u8) by {
            assert(!(s[i + 1] == 10u8 && s[(i + 1) + 1] == 10u8));
        }
        lemma_find_break(t, p, n - 1);
    }
}

proof fn lemma_not_before(s: Seq<u8>, p: Seq<u8>, n: int)
    requires
        p == stream::crlf_break(),
        0 <= n <= s.len(),
        forall|i: int| 0 <= i < n ==> s[i] != 13u8,
    ensures
        text::find(s, p) matches Some(k) ==> k >= n,
    decreases n,
{
    if n > 0 {
        assert(p[0] == 13u8);
        if text::starts_with(s, p) {
            assert(s.take(4)[0] == s[0]);
        }
        lemma_not_before(s.skip(1), p, n - 1);
    }
}

/// The models that Ollama lists are named in order.
pub proof fn law_ollama_models_are_listed_in_order(value: &Json, items: Seq<JsonView>, out: Vec<String>)
    requires
        call_ensures(ollama::model_names, (value,), out),
        json::json_get(value@, "models"@) == Some(JsonView::List(items)),
        forall|i: int|
            0 <= i < items.len() ==> json::json_text(#[trigger] items[i], "name"@) is Some,
    ensures
        out@.len() == items.len(),
        forall|i: int|
            0 <= i < items.len() ==> Some((#[trigger] out@[i])@) == json::json_text(
                items[i],
                "name"@,
            ),
{
    lemma_item_names(items);
    let names = text::views(out@);
    assert(names.len() == out@.len());
    assert forall|i: int| 0 <= i < items.len() implies Some((#[trigger] out@[i])@)
        == json::json_text(items[i], "name"@) by {
        assert(names[i] == out@[i]@);
    }
}

proof fn lemma_item_names(items: Seq<JsonView>)
    requires
        forall|i: int|
            0 <= i < items.len() ==> json::json_text(#[trigger] items[i], "name"@) is Some,
    ensures
        ollama::item_names(items).len() == items.len(),
        forall|i: int|
            0 <= i < items.len() ==> Some(#[trigger] ollama::item_names(items)[i])
                == json::json_text(items[i], "name"@),
    decreases items.len(),
{
    if items.len() > 0 {
        let before = items.drop_last();
        assert forall|i: int| 0 <= i < before.len() implies json::json_text(
            #[trigger] before[i],
            "name"@,
        ) is Some by {
            assert(before[i] == items[i]);
        }
        lemma_item_names(before);
        assert(json::json_text(items[items.len() - 1], "name"@) is Some);
    }
}

/// A chunk of Ollama adds its text behind what came before, and the text is
/// handed out as it is; its tool calls come behind those before.
pub proof fn law_ollama_chunks_add_their_text(
    s: &mut OllamaStream,
    chunk: &OllamaChunk,
    first: u64,
    events: Vec<StreamEvent>,
)
    requires
        first + ollama::message_calls(chunk@.message).len() <= u64::MAX,
        call_ensures(OllamaStream::chunk, (s, chunk, first), events),
    ensures
        ({
            let said = if chunk.message is Some && chunk.message->0.content is Some {
                chunk.message->0.content->0@
            } else {
                Seq::empty()
            };
            let calls = final(s).calls@;
            let before = old(s).calls@.len();
            &&& final(s).text@ == old(s).text@ + said
            &&& said.len() > 0 ==> events@.len() == 1 && (events@[0] matches StreamEvent::Chunk(
                piece,
            ) && piece@ == said)
            &&& said.len() == 0 ==> events@.len() == 0
            &&& chunk.message is Some && chunk.message->0.tool_calls is Some ==> {
                let asked = chunk.message->0.tool_calls->0@;
                &&& calls.len() == before + asked.len()
                &&& forall|i: int|
                    before <= i < calls.len() ==> (#[trigger] calls[i]).function.name@ == asked[i
                        - before].name@ && calls[i].function.arguments@ == asked[i
                        - before].arguments@
            }
            &&& chunk.done ==> final(s).saw_done
            &&& !chunk.done ==> final(s).saw_done == old(s).saw_done
        }),
{
    let said = if chunk.message is Some && chunk.message->0.content is Some {
        chunk.message->0.content->0@
    } else {
        Seq::empty()
    };
    assert(StreamEvent::views(events@).len() == events@.len());
    if said.len() > 0 {
        assert(StreamEvent::views(events@)[0] == events@[0]@);
    }
    let after = ToolCall::views(final(s).calls@);
    let earlier = ToolCall::views(old(s).calls@);
    assert(after.len() == final(s).calls@.len());
    assert(earlier.len() == old(s).calls@.len());
    if chunk.message is Some && chunk.message->0.tool_calls is Some {
        let asked = chunk.message->0.tool_calls->0@;
        let views = ollama::message_calls(chunk@.message);
        assert(views.len() == asked.len());
        let before = old(s).calls@.len() as int;
        let calls = final(s).calls@;
        assert forall|i: int| before <= i < calls.len() implies (#[trigger] calls[i]).function.name@
            == asked[i - before].name@ && calls[i].function.arguments@ == asked[i
            - before].arguments@ by {
            assert(after[i] == calls[i]@);
            assert(views[i - before] == asked[i - before]@);
        }
    }
}

/// A chunk of a streamed answer adds its text and its reasoning behind what came
/// before, and both are handed out as they are. The marker at the end hands out
/// the answer, and only it does.
pub proof fn law_chat_chunks_add_their_text(
    s: &mut ChatStream,
    data: &str,
    chunk: Option<StreamChunk>,
    events: Vec<StreamEvent>,
)
    requires
        call_ensures(ChatStream::payload, (s, data, chunk), events),
    ensures
        data@ == "[DONE]"@ ==> events@.len() == 1 && (events@[0] matches StreamEvent::Done(result)
            && (old(s).text@.len() > 0 ==> result@.content == Some(old(s).text@))
            && result@.reasoning_content == text::opt_view(old(s).reasoning) && result@.usage
            == old(s).usage && result@.finish_reason == text::opt_view(old(s).finish_reason))
            && final(s).finished,
        data@ != "[DONE]"@ ==> final(s).finished == old(s).finished && forall|i: int|
            0 <= i < events@.len() ==> !(#[trigger] events@[i] is Done),
        data@ != "[DONE]"@ && chunk is None ==> final(s)@ == old(s)@ && events@.len() == 0,
        data@ != "[DONE]"@ && chunk is Some && chunk->0.choices@.len() > 0 ==> {
            let delta = chunk->0.choices@[0].delta;
            &&& delta.content is Some ==> final(s).text@ == old(s).text@ + delta.content->0@
                && events@.len() >= 1 && (events@[0] matches StreamEvent::Chunk(piece) && piece@
                == delta.content->0@)
            &&& delta.content is None ==> final(s).text@ == old(s).text@
            &&& delta.reasoning_content is Some ==> events@.len() >= 1 && (
            events@.last() matches StreamEvent::ReasoningChunk(piece) && piece@
                == delta.reasoning_content->0@)
            &&& delta.reasoning_content is Some && old(s).reasoning is Some ==> text::opt_view(
                final(s).reasoning,
            ) == Some(old(s).reasoning->0@ + delta.reasoning_content->0@)
            &&& delta.reasoning_content is Some && old(s).reasoning is None ==> text::opt_view(
                final(s).reasoning,
            ) == Some(delta.reasoning_content->0@)
            &&& delta.reasoning_content is None ==> text::opt_view(final(s).reasoning)
                == text::opt_view(old(s).reasoning)
        },
{
    let views = StreamEvent::views(events@);
    assert(views.len() == events@.len());
    assert forall|i: int| 0 <= i < events@.len() implies #[trigger] views[i] == events@[i]@ by {}
    if data@ != "[DONE]"@ {
        if let Some(c) = chunk {
            assert(c@.choices.len() == c.choices@.len());
            if c.choices@.len() > 0 {
                assert(c@.choices[0] == c.choices@[0]@);
                let none = Seq::<char>::empty();
                assert(old(s).text@ + none =~= old(s).text@);
                if let Some(more) = c.choices@[0].delta.reasoning_content {
                    assert(none + more@ =~= more@);
                }
            }
            assert forall|i: int| 0 <= i < events@.len() implies !(
            #[trigger] events@[i] is Done) by {
                assert(views[i] == events@[i]@);
            }
        }
    }
    if events@.len() > 0 {
        assert(views[0] == events@[0]@);
        assert(views.last() == events@.last()@);
    }
}

} // verus!
