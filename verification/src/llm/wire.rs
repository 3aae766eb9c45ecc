//! What holds of requests to providers and of whole answers: what is sent is
//! what was meant, and what comes back is what was said.

use super::deepseek;
use super::deepseek::{CompletionResponse, DeepSeekProvider, ReasoningDetailView};
use super::github::GitHubModelsProvider;
use super::ollama::{OllamaChunk, OllamaProvider};
use super::{assembly, ollama, stream};
use crate::auth::Auth;
use crate::config::{self, Config};
use crate::json;
use crate::json::{Json, JsonView};
use crate::llm;
use crate::llm::{
    ChatMessage, ChatOptions, ChatResult, Provider, ProviderView, Role, ToolCall, ToolDef,
};
use crate::strmap::StrMap;
use vstd::prelude::*;
use vstd::string::*;

verus! {

proof fn lemma_member_push(
    members: Seq<(Seq<char>, JsonView)>,
    key: Seq<char>,
    value: JsonView,
    wanted: Seq<char>,
)
    ensures
        json::member(members.push((key, value)), wanted) == match json::member(members, wanted) {
            Some(v) => Some(v),
            None => if key == wanted {
                Some(value)
            } else {
                None
            },
        },
    decreases members.len(),
{
    let all = members.push((key, value));
    if members.len() == 0 {
        assert(all[0] == (key, value));
        assert(json::member(all.skip(1), wanted) is None);
    } else {
        assert(all[0] == members[0]);
        assert(all.skip(1) =~= members.skip(1).push((key, value)));
        lemma_member_push(members.skip(1), key, value, wanted);
    }
}

proof fn lemma_opt_member(
    members: Seq<(Seq<char>, JsonView)>,
    key: Seq<char>,
    value: Option<Seq<char>>,
    wanted: Seq<char>,
)
    ensures
        json::member(llm::opt_member(members, key, value), wanted) == match json::member(
            members,
            wanted,
        ) {
            Some(v) => Some(v),
            None => if key == wanted && value is Some {
                Some(JsonView::Text(value->0))
            } else {
                None
            },
        },
{
    if let Some(v) = value {
        lemma_member_push(members, key, JsonView::Text(v), wanted);
    }
}

proof fn lemma_message_keys()
    ensures
        "role"@.len() == 4,
        "content"@.len() == 7,
        "tool_calls"@.len() == 10,
        "tool_call_id"@.len() == 12,
        "reasoning_content"@.len() == 17,
{
    reveal_strlit("role");
    reveal_strlit("content");
    reveal_strlit("tool_calls");
    reveal_strlit("tool_call_id");
    reveal_strlit("reasoning_content");
}

/// A message is sent with its own role, its own content, the call that it
/// answers and the reasoning behind it; what it does not hold is left out.
pub proof fn law_messages_are_sent_as_they_are(m: &ChatMessage, j: Json)
    requires
        call_ensures(ChatMessage::to_json, (m,), j),
    ensures
        json::json_text(j@, "role"@) == Some(
            match m.role {
                Role::System => "system"@,
                Role::User => "user"@,
                Role::Assistant => "assistant"@,
                Role::Tool => "tool"@,
            },
        ),
        json::json_text(j@, "content"@) == m@.content,
        json::json_text(j@, "tool_call_id"@) == m@.tool_call_id,
        json::json_text(j@, "reasoning_content"@) == m@.reasoning_content,
        json::json_get(j@, "content"@) is Some <==> m@.content is Some,
        m@.tool_calls is None ==> json::json_get(j@, "tool_calls"@) is None,
        m@.tool_calls matches Some(calls) ==> json::json_get(j@, "tool_calls"@) == Some(
            JsonView::List(calls.map_values(|c: llm::ToolCallView| llm::call_json(c))),
        ),
{
    lemma_message_keys();
    lemma_message_member(*m, "role"@);
    lemma_message_member(*m, "content"@);
    lemma_message_member(*m, "tool_calls"@);
    lemma_message_member(*m, "tool_call_id"@);
    lemma_message_member(*m, "reasoning_content"@);
}

proof fn lemma_message_member(m: ChatMessage, wanted: Seq<char>)
    ensures
        json::json_get(llm::message_json(m@), wanted) == if wanted == "role"@ {
            Some(JsonView::Text(llm::role_name(m.role)))
        } else if wanted == "content"@ && m@.content is Some {
            Some(JsonView::Text(m@.content->0))
        } else if wanted == "tool_calls"@ && m@.tool_calls is Some {
            Some(
                JsonView::List(
                    m@.tool_calls->0.map_values(|c: llm::ToolCallView| llm::call_json(c)),
                ),
            )
        } else if wanted == "tool_call_id"@ && m@.tool_call_id is Some {
            Some(JsonView::Text(m@.tool_call_id->0))
        } else if wanted == "reasoning_content"@ && m@.reasoning_content is Some {
            Some(JsonView::Text(m@.reasoning_content->0))
        } else {
            None
        },
{
    lemma_message_keys();
    let none = Seq::<(Seq<char>, JsonView)>::empty();
    let role = JsonView::Text(llm::role_name(m.role));
    let first = seq![("role"@, role)];
    assert(first =~= none.push(("role"@, role)));
    lemma_member_push(none, "role"@, role, wanted);
    let start = llm::opt_member(first, "content"@, m@.content);
    lemma_opt_member(first, "content"@, m@.content, wanted);
    let called = match m@.tool_calls {
        Some(calls) => start.push(
            (
                "tool_calls"@,
                JsonView::List(calls.map_values(|c: llm::ToolCallView| llm::call_json(c))),
            ),
        ),
        None => start,
    };
    if let Some(calls) = m@.tool_calls {
        lemma_member_push(
            start,
            "tool_calls"@,
            JsonView::List(calls.map_values(|c: llm::ToolCallView| llm::call_json(c))),
            wanted,
        );
    }
    let answered = llm::opt_member(called, "tool_call_id"@, m@.tool_call_id);
    lemma_opt_member(called, "tool_call_id"@, m@.tool_call_id, wanted);
    lemma_opt_member(answered, "reasoning_content"@, m@.reasoning_content, wanted);
}

proof fn lemma_two_members(
    all: Seq<(Seq<char>, JsonView)>,
    a: (Seq<char>, JsonView),
    b: (Seq<char>, JsonView),
    rest: Seq<(Seq<char>, JsonView)>,
)
    requires
        a.0 != b.0,
        all =~= seq![a, b] + rest,
    ensures
        json::member(all, a.0) == Some(a.1),
        json::member(all, b.0) == Some(b.1),
        forall|k: Seq<char>|
            k != a.0 && k != b.0 ==> #[trigger] json::member(all, k) == json::member(rest, k),
{
    reveal_with_fuel(json::member, 3);
    assert(all[0] == a);
    assert(all.skip(1)[0] == b);
    assert(all.skip(1).skip(1) =~= rest);
}

/// A tool call is sent with its own identifier, its tool and its arguments.
pub proof fn law_calls_are_sent_as_they_are(call: &ToolCall, j: Json)
    requires
        call_ensures(ToolCall::to_json, (call,), j),
    ensures
        json::json_text(j@, "id"@) == Some(call@.id),
        json::json_text(j@, "type"@) == Some(call@.call_type),
        json::json_get(j@, "function"@) is Some,
        json::json_text(json::json_get(j@, "function"@)->0, "name"@) == Some(call@.function.name),
        json::json_text(json::json_get(j@, "function"@)->0, "arguments"@) == Some(
            call@.function.arguments,
        ),
{
    reveal_strlit("id");
    reveal_strlit("type");
    reveal_strlit("function");
    reveal_strlit("name");
    reveal_strlit("arguments");
    assert("id"@.len() != "type"@.len() && "id"@.len() != "function"@.len() && "type"@.len()
        != "function"@.len() && "name"@.len() != "arguments"@.len());
    let none = Seq::<(Seq<char>, JsonView)>::empty();
    let name = ("name"@, JsonView::Text(call@.function.name));
    let arguments = ("arguments"@, JsonView::Text(call@.function.arguments));
    let function = JsonView::Object(seq![name, arguments]);
    let id = ("id"@, JsonView::Text(call@.id));
    let kind = ("type"@, JsonView::Text(call@.call_type));
    lemma_two_members(function->Object_0, name, arguments, none);
    let rest = none.push(("function"@, function));
    lemma_member_push(none, "function"@, function, "function"@);
    assert(j@->Object_0 =~= seq![id, kind] + rest);
    lemma_two_members(j@->Object_0, id, kind, rest);
}

/// A tool is offered under its own name, with its description and the schema of
/// its arguments.
pub proof fn law_tools_are_offered_as_they_are(def: &ToolDef, j: Json)
    requires
        call_ensures(ToolDef::to_json, (def,), j),
    ensures
        json::json_text(j@, "type"@) == Some(def@.def_type),
        json::json_get(j@, "function"@) is Some,
        json::json_text(json::json_get(j@, "function"@)->0, "name"@) == Some(def@.function.name),
        json::json_text(json::json_get(j@, "function"@)->0, "description"@) == Some(
            def@.function.description,
        ),
        json::json_get(json::json_get(j@, "function"@)->0, "parameters"@) == Some(
            def@.function.parameters,
        ),
{
    reveal_strlit("type");
    reveal_strlit("function");
    reveal_strlit("name");
    reveal_strlit("description");
    reveal_strlit("parameters");
    assert("type"@.len() != "function"@.len() && "name"@.len() != "description"@.len()
        && "name"@.len() != "parameters"@.len() && "description"@.len() != "parameters"@.len());
    let none = Seq::<(Seq<char>, JsonView)>::empty();
    let name = ("name"@, JsonView::Text(def@.function.name));
    let description = ("description"@, JsonView::Text(def@.function.description));
    let rest = none.push(("parameters"@, def@.function.parameters));
    lemma_member_push(none, "parameters"@, def@.function.parameters, "parameters"@);
    let function = JsonView::Object(
        seq![name, description, ("parameters"@, def@.function.parameters)],
    );
    lemma_two_members(function->Object_0, name, description, rest);
    let kind = ("type"@, JsonView::Text(def@.def_type));
    assert(j@->Object_0 =~= seq![kind, ("function"@, function)] + none);
    lemma_two_members(j@->Object_0, kind, ("function"@, function), none);
}

/// Whether the body of a request asks the model that is meant, with all
/// messages in order, streamed or not, and offers the tools that are meant, in
/// order, and none where there are none.
pub open spec fn asks_for(
    body: JsonView,
    messages: Seq<llm::ChatMessageView>,
    options: llm::ChatOptionsView,
    stream: bool,
) -> bool {
    &&& json::json_text(body, "model"@) == Some(options.model_id)
    &&& json::json_get(body, "messages"@) matches Some(JsonView::List(sent)) && sent.len()
        == messages.len() && forall|i: int|
        0 <= i < sent.len() ==> #[trigger] sent[i] == llm::message_json(messages[i])
    &&& json::json_get(body, "stream"@) == Some(JsonView::Bool(stream))
    &&& options.tools.len() == 0 ==> json::json_get(body, "tools"@) is None
    &&& options.tools.len() > 0 ==> ({
        let offered = json::json_get(body, "tools"@);
        &&& offered is Some
        &&& offered->0 is List
        &&& offered->0->List_0.len() == options.tools.len()
        &&& forall|i: int|
            0 <= i < options.tools.len() ==> #[trigger] offered->0->List_0[i] == llm::def_json(
                options.tools[i],
            )
    })
}

proof fn lemma_request_keys()
    ensures
        "model"@.len() == 5,
        "model"@ != "tools"@,
        "tools"@.len() == 5,
        "messages"@.len() == 8,
        "stream"@.len() == 6,
        "temperature"@.len() == 11,
        "temperature"@ != "tool_choice"@,
        "tool_choice"@.len() == 11,
        "max_tokens"@.len() == 10,
        "max_completion_tokens"@.len() == 21,
        "reasoning_split"@.len() == 15,
        "options"@.len() == 7,
        "num_predict"@.len() == 11,
        "num_predict"@ != "temperature"@,
{
    reveal_strlit("model");
    reveal_strlit("tools");
    reveal_strlit("messages");
    reveal_strlit("stream");
    reveal_strlit("temperature");
    reveal_strlit("tool_choice");
    reveal_strlit("max_tokens");
    reveal_strlit("max_completion_tokens");
    reveal_strlit("reasoning_split");
    reveal_strlit("options");
    reveal_strlit("num_predict");
    assert("model"@[0] != "tools"@[0]);
    assert("temperature"@[1] != "tool_choice"@[1]);
    assert("num_predict"@[0] != "temperature"@[0]);
}

proof fn lemma_request_start(
    options: llm::ChatOptionsView,
    messages: Seq<llm::ChatMessageView>,
    stream: bool,
    temperature: JsonView,
    wanted: Seq<char>,
)
    ensures
        json::member(
            deepseek::request_start(options, messages, stream, temperature),
            wanted,
        ) == if wanted == "model"@ {
            Some(JsonView::Text(options.model_id))
        } else if wanted == "messages"@ {
            Some(llm::messages_json(messages))
        } else if wanted == "stream"@ {
            Some(JsonView::Bool(stream))
        } else if wanted == "temperature"@ {
            Some(temperature)
        } else {
            None
        },
{
    lemma_request_keys();
    let all = deepseek::request_start(options, messages, stream, temperature);
    assert(all.skip(1)[0] == all[1]);
    assert(all.skip(1).skip(1)[0] == all[2]);
    assert(all.skip(1).skip(1).skip(1)[0] == all[3]);
    assert(all.skip(1).skip(1).skip(1).skip(1) =~= Seq::empty());
    assert(json::member(all.skip(1).skip(1).skip(1).skip(1), wanted) is None);
    assert(json::member(all.skip(1).skip(1).skip(1), wanted) == if wanted == "temperature"@ {
        Some(temperature)
    } else {
        None
    });
    assert(json::member(all.skip(1).skip(1), wanted) == if wanted == "stream"@ {
        Some(JsonView::Bool(stream))
    } else {
        json::member(all.skip(1).skip(1).skip(1), wanted)
    });
    assert(json::member(all.skip(1), wanted) == if wanted == "messages"@ {
        Some(llm::messages_json(messages))
    } else {
        json::member(all.skip(1).skip(1), wanted)
    });
}

proof fn lemma_with_tools(
    members: Seq<(Seq<char>, JsonView)>,
    tools: Seq<llm::ToolDefView>,
    wanted: Seq<char>,
)
    ensures
        json::member(members + deepseek::tools_members(tools), wanted) == match json::member(
            members,
            wanted,
        ) {
            Some(v) => Some(v),
            None => if tools.len() > 0 && wanted == "tools"@ {
                Some(llm::defs_json(tools))
            } else if tools.len() > 0 && wanted == "tool_choice"@ {
                Some(JsonView::Text("auto"@))
            } else {
                None
            },
        },
{
    lemma_request_keys();
    if tools.len() > 0 {
        let offer = llm::defs_json(tools);
        let choice = JsonView::Text("auto"@);
        assert(members + deepseek::tools_members(tools) =~= members.push(("tools"@, offer)).push(
            ("tool_choice"@, choice),
        ));
        lemma_member_push(members, "tools"@, offer, wanted);
        lemma_member_push(members.push(("tools"@, offer)), "tool_choice"@, choice, wanted);
    } else {
        assert(members + deepseek::tools_members(tools) =~= members);
    }
}

/// A request to a provider with DeepSeek's interface asks for what is meant,
/// with the temperature that is meant and the limit in the field that the
/// provider reads.
pub proof fn law_deepseek_is_asked_for_what_is_meant(
    provider: &DeepSeekProvider,
    messages: &Vec<ChatMessage>,
    options: &ChatOptions,
    stream: bool,
    temperature: Json,
    body: Json,
)
    requires
        call_ensures(
            DeepSeekProvider::build_request,
            (provider, messages, options, stream, temperature),
            body,
        ),
    ensures
        asks_for(body@, ChatMessage::views(messages@), options@, stream),
        json::json_get(body@, "temperature"@) == Some(temperature@),
        json::json_uint(
            body@,
            match provider.max_tokens_field {
                deepseek::MaxTokensField::MaxTokens => "max_tokens"@,
                deepseek::MaxTokensField::MaxCompletionTokens => "max_completion_tokens"@,
            },
        ) == Some(options.max_tokens as u64),
        json::json_get(body@, "reasoning_split"@) is Some <==> provider.reasoning_split,
{
    lemma_request_keys();
    let all = ChatMessage::views(messages@);
    let start = deepseek::request_start(options@, all, stream, temperature@);
    let limit = JsonView::UInt(options.max_tokens as u64);
    let field = deepseek::limit_name(provider.max_tokens_field);
    let limited = start.push((field, limit));
    let offered = limited + deepseek::tools_members(options@.tools);
    let whole = provider.request(all, options@, stream, temperature@);
    assert forall|wanted: Seq<char>| #![trigger json::member(whole, wanted)]
        json::member(whole, wanted) == (match json::member(start, wanted) {
            Some(v) => Some(v),
            None => if wanted == field {
                Some(limit)
            } else if options@.tools.len() > 0 && wanted == "tools"@ {
                Some(llm::defs_json(options@.tools))
            } else if options@.tools.len() > 0 && wanted == "tool_choice"@ {
                Some(JsonView::Text("auto"@))
            } else if provider.reasoning_split && wanted == "reasoning_split"@ {
                Some(JsonView::Bool(true))
            } else {
                None
            },
        }) by {
        lemma_member_push(start, field, limit, wanted);
        lemma_with_tools(limited, options@.tools, wanted);
        lemma_member_push(offered, "reasoning_split"@, JsonView::Bool(true), wanted);
    }
    lemma_request_start(options@, all, stream, temperature@, "model"@);
    lemma_request_start(options@, all, stream, temperature@, "messages"@);
    lemma_request_start(options@, all, stream, temperature@, "stream"@);
    lemma_request_start(options@, all, stream, temperature@, "temperature"@);
    lemma_request_start(options@, all, stream, temperature@, "tools"@);
    lemma_request_start(options@, all, stream, temperature@, field);
    lemma_request_start(options@, all, stream, temperature@, "reasoning_split"@);
}

/// A request to GitHub Models asks for what is meant.
pub proof fn law_github_is_asked_for_what_is_meant(
    provider: &GitHubModelsProvider,
    messages: &Vec<ChatMessage>,
    options: &ChatOptions,
    stream: bool,
    temperature: Json,
    body: Json,
)
    requires
        call_ensures(
            GitHubModelsProvider::build_request,
            (provider, messages, options, stream, temperature),
            body,
        ),
    ensures
        asks_for(body@, ChatMessage::views(messages@), options@, stream),
        json::json_get(body@, "temperature"@) == Some(temperature@),
        json::json_uint(body@, "max_tokens"@) == Some(options.max_tokens as u64),
{
    lemma_request_keys();
    let all = ChatMessage::views(messages@);
    let start = deepseek::request_start(options@, all, stream, temperature@);
    let limit = JsonView::UInt(options.max_tokens as u64);
    let limited = start.push(("max_tokens"@, limit));
    let whole = limited + deepseek::tools_members(options@.tools);
    assert forall|wanted: Seq<char>| #![trigger json::member(whole, wanted)]
        json::member(whole, wanted) == (match json::member(start, wanted) {
            Some(v) => Some(v),
            None => if wanted == "max_tokens"@ {
                Some(limit)
            } else if options@.tools.len() > 0 && wanted == "tools"@ {
                Some(llm::defs_json(options@.tools))
            } else if options@.tools.len() > 0 && wanted == "tool_choice"@ {
                Some(JsonView::Text("auto"@))
            } else {
                None
            },
        }) by {
        lemma_member_push(start, "max_tokens"@, limit, wanted);
        lemma_with_tools(limited, options@.tools, wanted);
    }
    assert(body@->Object_0 == whole);
    lemma_request_start(options@, all, stream, temperature@, "model"@);
    lemma_request_start(options@, all, stream, temperature@, "messages"@);
    lemma_request_start(options@, all, stream, temperature@, "stream"@);
    lemma_request_start(options@, all, stream, temperature@, "temperature"@);
    lemma_request_start(options@, all, stream, temperature@, "tools"@);
    lemma_request_start(options@, all, stream, temperature@, "max_tokens"@);
}

/// A request to Ollama asks for what is meant; the temperature and the limit
/// stand among its options.
pub proof fn law_ollama_is_asked_for_what_is_meant(
    provider: &OllamaProvider,
    messages: &Vec<ChatMessage>,
    options: &ChatOptions,
    stream: bool,
    temperature: Json,
    body: Json,
)
    requires
        call_ensures(
            OllamaProvider::build_request,
            (provider, messages, options, stream, temperature),
            body,
        ),
    ensures
        asks_for(body@, ChatMessage::views(messages@), options@, stream),
        json::json_get(body@, "options"@) is Some,
        json::json_get(json::json_get(body@, "options"@)->0, "temperature"@) == Some(temperature@),
        json::json_uint(json::json_get(body@, "options"@)->0, "num_predict"@) == Some(
            options.max_tokens as u64,
        ),
{
    lemma_request_keys();
    let all = ChatMessage::views(messages@);
    let none = Seq::<(Seq<char>, JsonView)>::empty();
    let heat = ("temperature"@, temperature@);
    let limit = ("num_predict"@, JsonView::UInt(options.max_tokens as u64));
    let settings = JsonView::Object(seq![heat, limit]);
    lemma_two_members(settings->Object_0, heat, limit, none);
    let model = ("model"@, JsonView::Text(options@.model_id));
    let sent = ("messages"@, llm::messages_json(all));
    let streamed = ("stream"@, JsonView::Bool(stream));
    let last = ("options"@, settings);
    let tail = if options@.tools.len() == 0 {
        none
    } else {
        none.push(("tools"@, llm::defs_json(options@.tools)))
    };
    lemma_member_push(none, "tools"@, llm::defs_json(options@.tools), "tools"@);
    let end = seq![streamed, last] + tail;
    lemma_two_members(end, streamed, last, tail);
    assert(body@->Object_0 =~= seq![model, sent] + end);
    lemma_two_members(body@->Object_0, model, sent, end);
}

/// The texts in the pieces of a thought; one without a text has an empty one.
pub open spec fn detail_texts(details: Seq<ReasoningDetailView>) -> Seq<Seq<char>> {
    Seq::new(
        details.len(),
        |i: int|
            if details[i].text is Some {
                details[i].text->0
            } else {
                Seq::empty()
            },
    )
}

proof fn lemma_detail_texts(details: Seq<ReasoningDetailView>)
    ensures
        deepseek::details_text(details) == stream::run_together(detail_texts(details)),
    decreases details.len(),
{
    if details.len() > 0 {
        lemma_detail_texts(details.drop_last());
        assert(detail_texts(details).drop_last() =~= detail_texts(details.drop_last()));
    } else {
        assert(detail_texts(details) =~= Seq::empty());
    }
}

/// A whole answer is given as its first choice has it: the text, the tool calls
/// in order, the reason for stopping, the reasoning as one text or put together
/// from its pieces in order, and what it cost.
pub proof fn law_whole_answers_are_given(
    response: &CompletionResponse,
    r: Result<ChatResult, String>,
)
    requires
        call_ensures(deepseek::completion_result, (response,), r),
    ensures
        r is Ok <==> response@.choices.len() > 0,
        r matches Ok(result) ==> {
            let choice = response@.choices[0];
            &&& result@.content == choice.message.content
            &&& choice.message.tool_calls matches Some(calls) ==> result@.tool_calls == calls
            &&& choice.message.tool_calls is None ==> result@.tool_calls.len() == 0
            &&& result@.finish_reason == Some(choice.finish_reason)
            &&& choice.message.reasoning_content is Some ==> result@.reasoning_content
                == choice.message.reasoning_content
            &&& choice.message.reasoning_content is None && choice.message.reasoning_details
                is Some ==> result@.reasoning_content == Some(
                stream::run_together(detail_texts(choice.message.reasoning_details->0)),
            )
            &&& choice.message.reasoning_content is None && choice.message.reasoning_details
                is None ==> result@.reasoning_content is None
            &&& response@.usage matches Some(u) ==> result@.usage == u
        },
{
    if response@.choices.len() > 0 {
        if let Some(details) = response@.choices[0].message.reasoning_details {
            lemma_detail_texts(details);
        }
    }
}

/// A whole answer of Ollama holds the text that it has, its tool calls in order
/// with their arguments, why it ended and what it cost.
pub proof fn law_whole_ollama_answers_are_given(chunk: &OllamaChunk, first: u64, r: ChatResult)
    requires
        first + ollama::message_calls(chunk@.message).len() <= u64::MAX,
        call_ensures(ollama::completion_result, (chunk, first), r),
    ensures
        chunk@.message is Some ==> r@.content == chunk@.message->0.content,
        chunk@.message is None ==> r@.content is None,
        chunk@.message is Some && chunk@.message->0.tool_calls is Some ==> assembly::same_calls(
            r@.tool_calls,
            chunk@.message->0.tool_calls->0,
        ),
        chunk@.message is None || chunk@.message->0.tool_calls is None ==> r@.tool_calls.len()
            == 0,
        r@.finish_reason == chunk@.done_reason,
        chunk@.prompt_eval_count matches Some(n) ==> r@.usage.prompt_tokens == n,
        chunk@.eval_count matches Some(n) ==> r@.usage.completion_tokens == n,
{
}

/// The name of a provider says which one is asked: a provider with DeepSeek's
/// interface with its key, GitHub Models with its token, or Ollama.
pub proof fn law_providers_go_by_their_names(
    config: &Config,
    auth: &Auth,
    env: &StrMap<String>,
    name: &str,
    r: Result<Provider, String>,
)
    requires
        call_ensures(llm::build_provider_for, (config, auth, env, name), r),
    ensures
        ({
            let alike = name@ == "deepseek"@ || name@ == "glm"@ || name@ == "kimi"@ || name@
                == "minimax"@;
            &&& r matches Ok(p) ==> match p@ {
                ProviderView::DeepSeek(d) => alike,
                ProviderView::GitHub { token, base_url } => name@ == "github"@
                    && auth.token_of("github"@) is Some && token == config::expanded(
                    auth.token_of("github"@)->0,
                    env@,
                ),
                ProviderView::Ollama { base_url } => name@ == "ollama"@ && config.providers.ollama
                    is Some,
            }
            &&& !alike && name@ != "github"@ && name@ != "ollama"@ ==> r is Err
            &&& name@ == "ollama"@ && config.providers.ollama is Some ==> r is Ok
            &&& name@ == "github"@ && auth.token_of("github"@) is Some ==> r is Ok
        }),
{
    reveal_strlit("deepseek");
    reveal_strlit("glm");
    reveal_strlit("kimi");
    reveal_strlit("minimax");
    reveal_strlit("github");
    reveal_strlit("ollama");
    assert("github"@[0] != "ollama"@[0]);
    assert("github"@.len() == 6 && "ollama"@.len() == 6 && "deepseek"@.len() == 8 && "glm"@.len()
        == 3 && "kimi"@.len() == 4 && "minimax"@.len() == 7);
}

} // verus!
