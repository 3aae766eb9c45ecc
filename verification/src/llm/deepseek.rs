//! Providers with DeepSeek's interface: requests, whole answers and model
//! listings.

use super::stream;
use crate::auth::Auth;
use crate::config;
use crate::config::Config;
use crate::json;
use crate::json::{Json, JsonView};
use crate::llm;
use crate::llm::{
    ChatMessage, ChatMessageView, ChatOptions, ChatOptionsView, ChatResult, ChatResultView,
    ToolCall, ToolCallView, ToolDef, ToolDefView, Usage,
};
use crate::strmap::StrMap;
use crate::text;
use vstd::prelude::*;
use vstd::string::*;

verus! {

/// A piece of what the model thought.
#[derive(Debug)]
pub struct ReasoningDetail {
    pub text: Option<String>,
}

/// The model of [`ReasoningDetail`].
pub struct ReasoningDetailView {
    pub text: Option<Seq<char>>,
}

impl View for ReasoningDetail {
    type V = ReasoningDetailView;

    open spec fn view(&self) -> ReasoningDetailView {
        ReasoningDetailView {
            text: text::opt_view(self.text),
        }
    }
}

impl ReasoningDetail {
    /// The models of a sequence of values.
    pub open spec fn views(v: Seq<ReasoningDetail>) -> Seq<ReasoningDetailView> {
        v.map_values(|x: ReasoningDetail| x@)
    }
}

impl ReasoningDetail {
    /// The models of an optional list.
    pub open spec fn opt_views(v: Option<Vec<ReasoningDetail>>) -> Option<
        Seq<ReasoningDetailView>,
    > {
        match v {
            Some(w) => Some(ReasoningDetail::views(w@)),
            None => None,
        }
    }
}

/// The message of a whole answer.
#[derive(Debug)]
pub struct CompleteMessage {
    pub content: Option<String>,
    pub tool_calls: Option<Vec<ToolCall>>,
    pub reasoning_content: Option<String>,
    pub reasoning_details: Option<Vec<ReasoningDetail>>,
}

/// The model of [`CompleteMessage`].
pub struct CompleteMessageView {
    pub content: Option<Seq<char>>,
    pub tool_calls: Option<Seq<ToolCallView>>,
    pub reasoning_content: Option<Seq<char>>,
    pub reasoning_details: Option<Seq<ReasoningDetailView>>,
}

impl View for CompleteMessage {
    type V = CompleteMessageView;

    open spec fn view(&self) -> CompleteMessageView {
        CompleteMessageView {
            content: text::opt_view(self.content),
            tool_calls: ToolCall::opt_views(self.tool_calls),
            reasoning_content: text::opt_view(self.reasoning_content),
            reasoning_details: ReasoningDetail::opt_views(self.reasoning_details),
        }
    }
}

/// One of the answers of the model.
#[derive(Debug)]
pub struct CompleteChoice {
    pub message: CompleteMessage,
    pub finish_reason: String,
}

/// The model of [`CompleteChoice`].
pub struct CompleteChoiceView {
    pub message: CompleteMessageView,
    pub finish_reason: Seq<char>,
}

impl View for CompleteChoice {
    type V = CompleteChoiceView;

    open spec fn view(&self) -> CompleteChoiceView {
        CompleteChoiceView {
            message: self.message@,
            finish_reason: self.finish_reason@,
        }
    }
}

impl CompleteChoice {
    /// The models of a sequence of values.
    pub open spec fn views(v: Seq<CompleteChoice>) -> Seq<CompleteChoiceView> {
        v.map_values(|x: CompleteChoice| x@)
    }
}

/// A whole answer of a provider.
#[derive(Debug)]
pub struct CompletionResponse {
    pub choices: Vec<CompleteChoice>,
    pub usage: Option<Usage>,
}

/// The model of [`CompletionResponse`].
pub struct CompletionResponseView {
    pub choices: Seq<CompleteChoiceView>,
    pub usage: Option<Usage>,
}

impl View for CompletionResponse {
    type V = CompletionResponseView;

    open spec fn view(&self) -> CompletionResponseView {
        CompletionResponseView {
            choices: CompleteChoice::views(self.choices@),
            usage: self.usage,
        }
    }
}

/// What the pieces of a thought say, one after the other.
pub open spec fn details_text(details: Seq<ReasoningDetailView>) -> Seq<char>
    decreases details.len(),
{
    if details.len() == 0 {
        Seq::empty()
    } else {
        details_text(details.drop_last()) + stream::or_empty(details.last().text)
    }
}

/// The answer that a response carries: its first choice counts.
pub open spec fn completion_answer(response: CompletionResponseView) -> Option<ChatResultView> {
    if response.choices.len() == 0 {
        None
    } else {
        let message = response.choices[0].message;
        Some(
            ChatResultView {
                content: message.content,
                tool_calls: match message.tool_calls {
                    Some(calls) => calls,
                    None => Seq::empty(),
                },
                usage: match response.usage {
                    Some(u) => u,
                    None => Usage { prompt_tokens: 0, completion_tokens: 0, total_tokens: 0 },
                },
                reasoning_content: match message.reasoning_content {
                    Some(r) => Some(r),
                    None => match message.reasoning_details {
                        Some(details) => Some(details_text(details)),
                        None => None,
                    },
                },
                finish_reason: Some(response.choices[0].finish_reason),
            },
        )
    }
}

fn join_details(details: &Vec<ReasoningDetail>) -> (s: String)
    ensures
        s@ == details_text(ReasoningDetail::views(details@)),
{
    let ghost all = ReasoningDetail::views(details@);
    let mut s = String::new();
    let mut i: usize = 0;
    assert(all.take(0) =~= Seq::empty());
    while i < details.len()
        invariant
            i <= details.len(),
            all == ReasoningDetail::views(details@),
            s@ == details_text(all.take(i as int)),
        decreases details.len() - i,
    {
        assert(all.take(i + 1).drop_last() =~= all.take(i as int));
        assert(all.take(i + 1).last() == details@[i as int]@);
        assert(s@ + Seq::empty() =~= s@);
        match &details[i].text {
            Some(t) => s.append(t.as_str()),
            None => {},
        }
        i += 1;
    }
    assert(all.take(all.len() as int) =~= all);
    s
}

/// The answer that a response carries.
pub fn completion_result(response: &CompletionResponse) -> (r: Result<ChatResult, String>)
    ensures
        match r {
            Ok(result) => completion_answer(response@) == Some(result@),
            Err(e) => completion_answer(response@) is None && e@ == "Empty choices"@,
        },
{
    if response.choices.len() == 0 {
        return Err("Empty choices".to_owned());
    }
    let choice = &response.choices[0];
    assert(response@.choices[0] == choice@);
    let message = &choice.message;
    let tool_calls = match &message.tool_calls {
        Some(calls) => ToolCall::clone_all(calls),
        None => {
            let none: Vec<ToolCall> = Vec::new();
            assert(ToolCall::views(none@) =~= Seq::empty());
            none
        },
    };
    let usage: Usage = match response.usage {
        Some(u) => u,
        None => Usage::default(),
    };
    let reasoning_content = match &message.reasoning_content {
        Some(r) => Some(r.clone()),
        None => match &message.reasoning_details {
            Some(details) => Some(join_details(details)),
            None => None,
        },
    };
    Ok(
        ChatResult {
            content: text::clone_opt(&message.content),
            tool_calls,
            usage,
            reasoning_content,
            finish_reason: Some(choice.finish_reason.clone()),
        },
    )
}

/// The field of a request that limits the length of the answer.
#[derive(Debug, Clone, Copy, PartialEq, Eq, Structural)]
pub enum MaxTokensField {
    MaxTokens,
    MaxCompletionTokens,
}

/// How a provider with DeepSeek's interface is talked to.
#[derive(Debug)]
pub struct DeepSeekProvider {
    pub provider_name: String,
    pub api_key: String,
    pub base_url: String,
    pub chat_path: String,
    pub models_path: String,
    pub max_tokens_field: MaxTokensField,
    /// How many decimals of the temperature the provider takes, if it limits
    /// them.
    pub temperature_decimals: Option<u32>,
    pub reasoning_split: bool,
}

/// The model of [`DeepSeekProvider`].
pub struct DeepSeekProviderView {
    pub provider_name: Seq<char>,
    pub api_key: Seq<char>,
    pub base_url: Seq<char>,
    pub chat_path: Seq<char>,
    pub models_path: Seq<char>,
    pub max_tokens_field: MaxTokensField,
    pub temperature_decimals: Option<u32>,
    pub reasoning_split: bool,
}

impl View for DeepSeekProvider {
    type V = DeepSeekProviderView;

    open spec fn view(&self) -> DeepSeekProviderView {
        DeepSeekProviderView {
            provider_name: self.provider_name@,
            api_key: self.api_key@,
            base_url: self.base_url@,
            chat_path: self.chat_path@,
            models_path: self.models_path@,
            max_tokens_field: self.max_tokens_field,
            temperature_decimals: self.temperature_decimals,
            reasoning_split: self.reasoning_split,
        }
    }
}

impl DeepSeekProviderView {
    /// The provider with the key and the address that were found, if both were.
    pub open spec fn found(
        self,
        key: Result<Seq<char>, Seq<char>>,
        url: Result<Seq<char>, Seq<char>>,
    ) -> Result<DeepSeekProviderView, Seq<char>> {
        match (key, url) {
            (Err(e), _) => Err(e),
            (Ok(_), Err(e)) => Err(e),
            (Ok(api_key), Ok(base_url)) => Ok(DeepSeekProviderView { api_key, base_url, ..self }),
        }
    }
}

/// What is known of DeepSeek.
pub open spec fn deepseek() -> DeepSeekProviderView {
    DeepSeekProviderView {
        provider_name: "DeepSeek"@,
        api_key: Seq::empty(),
        base_url: Seq::empty(),
        chat_path: "/chat/completions"@,
        models_path: "/models"@,
        max_tokens_field: MaxTokensField::MaxTokens,
        temperature_decimals: None,
        reasoning_split: false,
    }
}

/// What is known of GLM.
pub open spec fn glm() -> DeepSeekProviderView {
    DeepSeekProviderView {
        provider_name: "GLM"@,
        chat_path: "/paas/v4/chat/completions"@,
        models_path: "/paas/v4/models"@,
        temperature_decimals: Some(2),
        ..deepseek()
    }
}

/// What is known of Kimi.
pub open spec fn kimi() -> DeepSeekProviderView {
    DeepSeekProviderView {
        provider_name: "Kimi"@,
        chat_path: "/v1/chat/completions"@,
        models_path: "/v1/models"@,
        max_tokens_field: MaxTokensField::MaxCompletionTokens,
        ..deepseek()
    }
}

/// What is known of MiniMax.
pub open spec fn minimax() -> DeepSeekProviderView {
    DeepSeekProviderView { provider_name: "MiniMax"@, reasoning_split: true, ..kimi() }
}

/// What is reported of an answer that is an error.
pub open spec fn refusal_text(start: Seq<char>, status: Seq<char>, body: Seq<char>) -> Seq<char> {
    start + status + "): "@ + body
}

pub(crate) fn append_refusal(s: &mut String, status: &str, body: &str)
    ensures
        final(s)@ == refusal_text(old(s)@, status@, body@),
{
    s.append(status);
    s.append("): ");
    s.append(body);
}

/// The model of a provider or of the reason why there is none.
pub open spec fn provider_result(r: Result<DeepSeekProvider, String>) -> Result<
    DeepSeekProviderView,
    Seq<char>,
> {
    match r {
        Ok(p) => Ok(p@),
        Err(e) => Err(e@),
    }
}

impl DeepSeekProvider {
    /// DeepSeek, as it is configured.
    pub fn new(config: &Config, auth: &Auth, env: &StrMap<String>) -> (r: Result<
        DeepSeekProvider,
        String,
    >)
        ensures
            provider_result(r) == deepseek().found(
                config.deepseek_key(*auth, env@),
                config.deepseek_url(env@),
            ),
    {
        let api_key = match config.resolve_deepseek_api_key(auth, env) {
            Ok(key) => key,
            Err(e) => {
                return Err(e);
            },
        };
        let base_url = match config.deepseek_base_url(env) {
            Ok(url) => url,
            Err(e) => {
                return Err(e);
            },
        };
        Ok(
            DeepSeekProvider {
                provider_name: "DeepSeek".to_owned(),
                api_key,
                base_url,
                chat_path: "/chat/completions".to_owned(),
                models_path: "/models".to_owned(),
                max_tokens_field: MaxTokensField::MaxTokens,
                temperature_decimals: None,
                reasoning_split: false,
            },
        )
    }

    /// A provider of which only the key is configured.
    fn new_api_key_provider(
        config: &Config,
        auth: &Auth,
        env: &StrMap<String>,
        provider: &str,
        display_name: &str,
        chat_path: &str,
        models_path: &str,
        max_tokens_field: MaxTokensField,
        temperature_decimals: Option<u32>,
        reasoning_split: bool,
    ) -> (r: Result<DeepSeekProvider, String>)
        ensures
            provider_result(r) == (DeepSeekProviderView {
                provider_name: display_name@,
                api_key: Seq::empty(),
                base_url: Seq::empty(),
                chat_path: chat_path@,
                models_path: models_path@,
                max_tokens_field,
                temperature_decimals,
                reasoning_split,
            }).found(
                config::provider_key(*auth, provider@, env@),
                config::provider_url(provider@),
            ),
    {
        let api_key = match config.resolve_provider_api_key(auth, provider, env) {
            Ok(key) => key,
            Err(e) => {
                return Err(e);
            },
        };
        let base_url = match config.provider_base_url(provider) {
            Ok(url) => url,
            Err(e) => {
                return Err(e);
            },
        };
        Ok(
            DeepSeekProvider {
                provider_name: display_name.to_owned(),
                api_key,
                base_url,
                chat_path: chat_path.to_owned(),
                models_path: models_path.to_owned(),
                max_tokens_field,
                temperature_decimals,
                reasoning_split,
            },
        )
    }

    /// GLM, as it is configured.
    pub fn new_glm(config: &Config, auth: &Auth, env: &StrMap<String>) -> (r: Result<
        DeepSeekProvider,
        String,
    >)
        ensures
            provider_result(r) == glm().found(
                config::provider_key(*auth, "glm"@, env@),
                config::provider_url("glm"@),
            ),
    {
        DeepSeekProvider::new_api_key_provider(
            config,
            auth,
            env,
            "glm",
            "GLM",
            "/paas/v4/chat/completions",
            "/paas/v4/models",
            MaxTokensField::MaxTokens,
            Some(2),
            false,
        )
    }

    /// Kimi, as it is configured.
    pub fn new_kimi(config: &Config, auth: &Auth, env: &StrMap<String>) -> (r: Result<
        DeepSeekProvider,
        String,
    >)
        ensures
            provider_result(r) == kimi().found(
                config::provider_key(*auth, "kimi"@, env@),
                config::provider_url("kimi"@),
            ),
    {
        DeepSeekProvider::new_api_key_provider(
            config,
            auth,
            env,
            "kimi",
            "Kimi",
            "/v1/chat/completions",
            "/v1/models",
            MaxTokensField::MaxCompletionTokens,
            None,
            false,
        )
    }

    /// MiniMax, as it is configured.
    pub fn new_minimax(config: &Config, auth: &Auth, env: &StrMap<String>) -> (r: Result<
        DeepSeekProvider,
        String,
    >)
        ensures
            provider_result(r) == minimax().found(
                config::provider_key(*auth, "minimax"@, env@),
                config::provider_url("minimax"@),
            ),
    {
        DeepSeekProvider::new_api_key_provider(
            config,
            auth,
            env,
            "minimax",
            "MiniMax",
            "/v1/chat/completions",
            "/v1/models",
            MaxTokensField::MaxCompletionTokens,
            None,
            true,
        )
    }
}

/// The start of the body of a chat request.
pub open spec fn request_start(
    options: ChatOptionsView,
    messages: Seq<ChatMessageView>,
    stream: bool,
    temperature: JsonView,
) -> Seq<(Seq<char>, JsonView)> {
    seq![
        ("model"@, JsonView::Text(options.model_id)),
        ("messages"@, llm::messages_json(messages)),
        ("stream"@, JsonView::Bool(stream)),
        ("temperature"@, temperature),
    ]
}

/// The members of a request that offer tools; without tools there are none.
pub open spec fn tools_members(tools: Seq<ToolDefView>) -> Seq<(Seq<char>, JsonView)> {
    if tools.len() == 0 {
        Seq::empty()
    } else {
        seq![
            ("tools"@, llm::defs_json(tools)),
            ("tool_choice"@, JsonView::Text("auto"@)),
        ]
    }
}

/// The name of the field that limits the length of the answer.
pub open spec fn limit_name(field: MaxTokensField) -> Seq<char> {
    match field {
        MaxTokensField::MaxTokens => "max_tokens"@,
        MaxTokensField::MaxCompletionTokens => "max_completion_tokens"@,
    }
}

/// Appends the members of a request that offer tools.
pub(crate) fn push_tools(members: &mut Vec<(String, Json)>, tools: &Vec<ToolDef>)
    ensures
        json::members_view(final(members)@) == json::members_view(old(members)@) + tools_members(
            ToolDef::views(tools@),
        ),
{
    let ghost start = json::members_view(members@);
    assert(start + Seq::empty() =~= start);
    if tools.len() > 0 {
        Json::push_member(members, "tools", ToolDef::all_to_json(tools));
        Json::push_member(members, "tool_choice", Json::string("auto"));
        assert(json::members_view(members@) =~= start + tools_members(ToolDef::views(tools@)));
    }
}

/// The start of the body of a chat request.
pub(crate) fn start_request(
    messages: &Vec<ChatMessage>,
    options: &ChatOptions,
    stream: bool,
    temperature: Json,
) -> (members: Vec<(String, Json)>)
    ensures
        json::members_view(members@) == request_start(
            options@,
            ChatMessage::views(messages@),
            stream,
            temperature@,
        ),
{
    let mut members = Json::no_members();
    Json::push_member(&mut members, "model", Json::string(options.model_id.as_str()));
    Json::push_member(&mut members, "messages", ChatMessage::all_to_json(messages));
    Json::push_member(&mut members, "stream", Json::Bool(stream));
    Json::push_member(&mut members, "temperature", temperature);
    assert(json::members_view(members@) =~= request_start(
        options@,
        ChatMessage::views(messages@),
        stream,
        temperature@,
    ));
    members
}

impl DeepSeekProvider {
    /// The body of a chat request.
    pub open spec fn request(
        &self,
        messages: Seq<ChatMessageView>,
        options: ChatOptionsView,
        stream: bool,
        temperature: JsonView,
    ) -> Seq<(Seq<char>, JsonView)> {
        let limited = request_start(options, messages, stream, temperature).push(
            (limit_name(self.max_tokens_field), JsonView::UInt(options.max_tokens as u64)),
        ) + tools_members(options.tools);
        if self.reasoning_split {
            limited.push(("reasoning_split"@, JsonView::Bool(true)))
        } else {
            limited
        }
    }

    /// The body of a chat request; `temperature` is the temperature as the
    /// provider takes it.
    pub fn build_request(
        &self,
        messages: &Vec<ChatMessage>,
        options: &ChatOptions,
        stream: bool,
        temperature: Json,
    ) -> (body: Json)
        ensures
            body@ == JsonView::Object(
                self.request(ChatMessage::views(messages@), options@, stream, temperature@),
            ),
    {
        let mut members = start_request(messages, options, stream, temperature);
        let limit = Json::UInt(options.max_tokens as u64);
        match self.max_tokens_field {
            MaxTokensField::MaxTokens => Json::push_member(&mut members, "max_tokens", limit),
            MaxTokensField::MaxCompletionTokens => Json::push_member(
                &mut members,
                "max_completion_tokens",
                limit,
            ),
        }
        push_tools(&mut members, &options.tools);
        if self.reasoning_split {
            Json::push_member(&mut members, "reasoning_split", Json::Bool(true));
        }
        Json::object(members)
    }

    /// Where chat requests go.
    pub fn chat_url(&self) -> (s: String)
        ensures
            s@ == self@.base_url + self@.chat_path,
    {
        text::cat2(self.base_url.as_str(), self.chat_path.as_str())
    }

    /// Where the models are listed.
    pub fn models_url(&self) -> (s: String)
        ensures
            s@ == self@.base_url + self@.models_path,
    {
        text::cat2(self.base_url.as_str(), self.models_path.as_str())
    }

    /// What is reported when the provider answers a chat request with an error.
    pub fn api_error(&self, status: &str, body: &str) -> (s: String)
        ensures
            s@ == refusal_text(self@.provider_name + " API error ("@, status@, body@),
    {
        let mut s = text::cat2(self.provider_name.as_str(), " API error (");
        append_refusal(&mut s, status, body);
        s
    }

    /// What is reported when the provider answers a model listing with an error.
    pub fn list_error(&self, status: &str, body: &str) -> (s: String)
        ensures
            s@ == refusal_text(self@.provider_name + " model list API error ("@, status@, body@),
    {
        let mut s = text::cat2(self.provider_name.as_str(), " model list API error (");
        append_refusal(&mut s, status, body);
        s
    }

    /// What is reported when a stream ends before its answer is complete.
    pub fn stream_ended(&self) -> (s: String)
        ensures
            s@ == self.provider_name@ + " stream ended before completion marker"@,
    {
        text::cat2(self.provider_name.as_str(), " stream ended before completion marker")
    }

    /// The stream has ended: an error where its answer is not complete, and
    /// otherwise nothing more.
    pub fn closed(&self, answer: &stream::ChatStream) -> (r: Option<String>)
        ensures
            answer@.finished ==> r is None,
            !answer@.finished ==> (r matches Some(e) && e@ == self.provider_name@
                + " stream ended before completion marker"@),
    {
        if answer.finished {
            None
        } else {
            Some(self.stream_ended())
        }
    }

    /// The models that the body of a model listing names.
    pub fn models_from_body(&self, body: &str) -> (r: Result<Vec<String>, String>)
        ensures
            match json::json_parse(body@) {
                Ok(value) => r matches Ok(models) && text::views(models@) == model_ids(value),
                Err(e) => r matches Err(error) && error@ == "Failed to parse "@
                    + self.provider_name@ + " model list response as JSON: "@ + e,
            },
    {
        match json::parse_json(body) {
            Ok(value) => Ok(extract_model_ids(&value)),
            Err(e) => {
                let mut error = text::cat3(
                    "Failed to parse ",
                    self.provider_name.as_str(),
                    " model list response as JSON: ",
                );
                error.append(e.as_str());
                Err(error)
            },
        }
    }
}

/// Whether a member of an object with this key names a model.
pub open spec fn is_id_key(key: Seq<char>) -> bool {
    ||| key == "id"@
    ||| key == "model"@
    ||| key == "name"@
    ||| key == "model_id"@
    ||| key == "model_name"@
    ||| key == "api_model"@
    ||| key == "model_api"@
}

/// The values without the whitespace around them; of equal ones only the
/// first, and no empty one.
pub open spec fn deduped(values: Seq<Seq<char>>) -> Seq<Seq<char>>
    decreases values.len(),
{
    if values.len() == 0 {
        Seq::empty()
    } else {
        let before = deduped(values.drop_last());
        let value = text::trimmed(values.last());
        if value.len() == 0 || before.contains(value) {
            before
        } else {
            before.push(value)
        }
    }
}

/// The models that a value names at any depth.
pub open spec fn ids_in(value: JsonView) -> Seq<Seq<char>>
    decreases value,
{
    match value {
        JsonView::List(items) => list_ids(items),
        JsonView::Object(members) => deduped(member_ids(members)),
        _ => Seq::empty(),
    }
}

/// The models that the items of a list name.
pub open spec fn list_ids(items: Seq<JsonView>) -> Seq<Seq<char>>
    decreases items,
{
    if items.len() == 0 {
        Seq::empty()
    } else {
        list_ids(items.subrange(0, items.len() - 1)) + ids_in(items[items.len() - 1])
    }
}

/// The models that the members of an object name.
pub open spec fn member_ids(members: Seq<(Seq<char>, JsonView)>) -> Seq<Seq<char>>
    decreases members,
{
    if members.len() == 0 {
        Seq::empty()
    } else {
        let last = members[members.len() - 1];
        let before = member_ids(members.subrange(0, members.len() - 1));
        (match last.1 {
            JsonView::Text(s) => if is_id_key(last.0) {
                before.push(s)
            } else {
                before
            },
            _ => before,
        }) + ids_in(last.1)
    }
}

/// What an optional value holds under `key`.
pub open spec fn get_in(value: Option<JsonView>, key: Seq<char>) -> Option<JsonView> {
    match value {
        Some(v) => json::json_get(v, key),
        None => None,
    }
}

/// The places in a model listing where models are looked for, in order.
pub open spec fn places(value: JsonView) -> Seq<Option<JsonView>> {
    let data = json::json_get(value, "data"@);
    let result = json::json_get(value, "result"@);
    seq![
        data,
        json::json_get(value, "models"@),
        json::json_get(value, "list"@),
        result,
        json::json_get(value, "items"@),
        get_in(data, "models"@),
        get_in(data, "list"@),
        get_in(result, "models"@),
        Some(value),
    ]
}

/// The models that the first of these places names which names any.
pub open spec fn first_ids(places: Seq<Option<JsonView>>) -> Seq<Seq<char>>
    decreases places.len(),
{
    if places.len() == 0 {
        Seq::empty()
    } else {
        let ids = match places[0] {
            Some(v) => ids_in(v),
            None => Seq::empty(),
        };
        if ids.len() > 0 {
            ids
        } else {
            first_ids(places.skip(1))
        }
    }
}

/// The models that a model listing names.
pub open spec fn model_ids(value: JsonView) -> Seq<Seq<char>> {
    first_ids(places(value))
}

fn is_model_id_key(key: &str) -> (b: bool)
    ensures
        b == is_id_key(key@),
{
    text::same(key, "id") || text::same(key, "model") || text::same(key, "name") || text::same(
        key,
        "model_id",
    ) || text::same(key, "model_name") || text::same(key, "api_model") || text::same(
        key,
        "model_api",
    )
}

/// Whether `value` is among `values`.
fn has_value(values: &Vec<String>, value: &str) -> (b: bool)
    ensures
        b == text::views(values@).contains(value@),
{
    let mut i: usize = 0;
    while i < values.len()
        invariant
            i <= values.len(),
            forall|k: int| 0 <= k < i ==> (#[trigger] values@[k])@ != value@,
        decreases values.len() - i,
    {
        if text::same(values[i].as_str(), value) {
            assert(text::views(values@)[i as int] == value@);
            return true;
        }
        i += 1;
    }
    assert forall|k: int| 0 <= k < text::views(values@).len() implies text::views(values@)[k]
        != value@ by {
        assert(values@[k]@ != value@);
    }
    false
}

/// The values without the whitespace around them, each once and none empty.
pub fn dedupe_strings(values: Vec<String>) -> (out: Vec<String>)
    ensures
        text::views(out@) == deduped(text::views(values@)),
{
    let ghost all = text::views(values@);
    let mut out: Vec<String> = Vec::new();
    let mut i: usize = 0;
    assert(text::views(out@) =~= deduped(all.take(0)));
    while i < values.len()
        invariant
            i <= values.len(),
            all == text::views(values@),
            text::views(out@) == deduped(all.take(i as int)),
        decreases values.len() - i,
    {
        assert(all.take(i + 1).drop_last() =~= all.take(i as int));
        assert(all.take(i + 1).last() == values@[i as int]@);
        let ghost before = out@;
        let value = text::trim_str(values[i].as_str());
        if !value.as_str().is_empty() && !has_value(&out, value.as_str()) {
            out.push(value);
            assert(text::views(out@) =~= text::views(before).push(value@));
        }
        i += 1;
    }
    assert(all.take(all.len() as int) =~= all);
    out
}

/// The models that a value names at any depth.
fn extract_model_ids_recursive(value: &Json) -> (out: Vec<String>)
    ensures
        text::views(out@) == ids_in(value@),
    decreases value,
{
    let mut out: Vec<String> = Vec::new();
    assert(text::views(out@) =~= Seq::empty());
    match value {
        Json::List(items) => {
            let ghost all = value@->List_0;
            let mut i: usize = 0;
            assert(all.subrange(0, 0) =~= Seq::empty());
            while i < items.len()
                invariant
                    i <= items.len(),
                    decreases_to!(value => items),
                    all.len() == items.len(),
                    forall|k: int| 0 <= k < items.len() ==> #[trigger] all[k] == items@[k]@,
                    text::views(out@) == list_ids(all.subrange(0, i as int)),
                decreases items.len() - i,
            {
                assert(decreases_to!(items => items@[i as int]));
                let ghost before = out@;
                let mut more = extract_model_ids_recursive(&items[i]);
                let ghost added = more@;
                out.append(&mut more);
                assert(text::views(out@) =~= text::views(before) + text::views(added));
                let ghost upto = all.subrange(0, i + 1);
                assert(upto.subrange(0, upto.len() - 1) =~= all.subrange(0, i as int));
                assert(upto[upto.len() - 1] == items@[i as int]@);
                i += 1;
            }
            assert(all.subrange(0, all.len() as int) =~= all);
            out
        },
        Json::Object(members) => {
            let ghost all = value@->Object_0;
            let mut i: usize = 0;
            assert(all.subrange(0, 0) =~= Seq::empty());
            while i < members.len()
                invariant
                    i <= members.len(),
                    decreases_to!(value => members),
                    all.len() == members.len(),
                    forall|k: int|
                        0 <= k < members.len() ==> #[trigger] all[k] == (
                            members@[k].0@,
                            members@[k].1@,
                        ),
                    text::views(out@) == member_ids(all.subrange(0, i as int)),
                decreases members.len() - i,
            {
                assert(decreases_to!(members => members@[i as int]));
                assert(decreases_to!(members@[i as int] => members@[i as int].1));
                let ghost upto = all.subrange(0, i + 1);
                assert(upto.subrange(0, upto.len() - 1) =~= all.subrange(0, i as int));
                assert(upto[upto.len() - 1] == (members@[i as int].0@, members@[i as int].1@));
                let ghost before = out@;
                match &members[i].1 {
                    Json::Text(s) => {
                        if is_model_id_key(members[i].0.as_str()) {
                            out.push(s.clone());
                            assert(text::views(out@) =~= text::views(before).push(s@));
                        }
                    },
                    _ => {},
                }
                let ghost named = out@;
                let mut more = extract_model_ids_recursive(&members[i].1);
                let ghost added = more@;
                out.append(&mut more);
                assert(text::views(out@) =~= text::views(named) + text::views(added));
                i += 1;
            }
            assert(all.subrange(0, all.len() as int) =~= all);
            dedupe_strings(out)
        },
        _ => out,
    }
}

/// Looks for models in a place, where none have been found yet.
fn ids_at(place: Option<&Json>, found: Vec<String>) -> (out: Vec<String>)
    ensures
        text::views(out@) == if found@.len() > 0 {
            text::views(found@)
        } else {
            match place {
                Some(v) => ids_in(v@),
                None => Seq::empty(),
            }
        },
{
    if found.len() > 0 {
        return found;
    }
    assert(text::views(found@) =~= Seq::empty());
    match place {
        Some(v) => extract_model_ids_recursive(v),
        None => found,
    }
}

fn get_at<'a>(value: Option<&'a Json>, key: &str) -> (r: Option<&'a Json>)
    ensures
        match r {
            Some(v) => get_in(
                match value {
                    Some(w) => Some(w@),
                    None => None,
                },
                key@,
            ) == Some(v@),
            None => get_in(
                match value {
                    Some(w) => Some(w@),
                    None => None,
                },
                key@,
            ) is None,
        },
{
    match value {
        Some(v) => v.get(key),
        None => None,
    }
}

/// The models that a model listing names.
pub fn extract_model_ids(value: &Json) -> (out: Vec<String>)
    ensures
        text::views(out@) == model_ids(value@),
{
    let data = value.get("data");
    let result = value.get("result");
    let none: Vec<String> = Vec::new();
    let found = ids_at(data, none);
    let found = ids_at(value.get("models"), found);
    let found = ids_at(value.get("list"), found);
    let found = ids_at(result, found);
    let found = ids_at(value.get("items"), found);
    let found = ids_at(get_at(data, "models"), found);
    let found = ids_at(get_at(data, "list"), found);
    let found = ids_at(get_at(result, "models"), found);
    let found = ids_at(Some(value), found);
    proof {
        let p = places(value@);
        assert(p.skip(1).skip(1) =~= p.skip(2));
        assert(p.skip(2).skip(1) =~= p.skip(3));
        assert(p.skip(3).skip(1) =~= p.skip(4));
        assert(p.skip(4).skip(1) =~= p.skip(5));
        assert(p.skip(5).skip(1) =~= p.skip(6));
        assert(p.skip(6).skip(1) =~= p.skip(7));
        assert(p.skip(7).skip(1) =~= p.skip(8));
        assert(p.skip(8).skip(1) =~= p.skip(9));
        reveal_with_fuel(first_ids, 10);
    }
    found
}

/// What is deduped holds no value twice and no empty one, and only values that
/// were there, without the whitespace around them.
pub proof fn law_deduped(values: Seq<Seq<char>>)
    ensures
        deduped(values).no_duplicates(),
        forall|i: int|
            0 <= i < deduped(values).len() ==> (#[trigger] deduped(values)[i]).len() > 0,
        forall|v: Seq<char>| #[trigger]
            deduped(values).contains(v) <==> v.len() > 0 && exists|i: int|
                0 <= i < values.len() && v == text::trimmed(#[trigger] values[i]),
    decreases values.len(),
{
    if values.len() > 0 {
        law_deduped(values.drop_last());
        let before = deduped(values.drop_last());
        let value = text::trimmed(values.last());
        let out = deduped(values);
        assert forall|v: Seq<char>| #[trigger] out.contains(v) <==> v.len() > 0 && exists|i: int|
            0 <= i < values.len() && v == text::trimmed(#[trigger] values[i]) by {
            if out.contains(v) {
                if out != before {
                    let i = choose|i: int| 0 <= i < out.len() && out[i] == v;
                    if i < before.len() {
                        assert(before[i] == v);
                        assert(before.contains(v));
                    } else {
                        assert(values[values.len() - 1] == values.last());
                    }
                }
                if before.contains(v) {
                    let j = choose|j: int|
                        0 <= j < values.len() - 1 && v == text::trimmed(
                            #[trigger] values.drop_last()[j],
                        );
                    assert(values[j] == values.drop_last()[j]);
                }
            }
            if v.len() > 0 && exists|i: int|
                0 <= i < values.len() && v == text::trimmed(#[trigger] values[i]) {
                let i = choose|i: int|
                    0 <= i < values.len() && v == text::trimmed(#[trigger] values[i]);
                if i < values.len() - 1 {
                    assert(values.drop_last()[i] == values[i]);
                    assert(before.contains(v));
                    let k = choose|k: int| 0 <= k < before.len() && before[k] == v;
                    assert(out[k] == v);
                } else {
                    assert(v == value);
                    if before.contains(value) {
                        assert(out == before);
                    } else {
                        assert(out[before.len() as int] == value);
                    }
                }
            }
        }
    }
}

/// A listing that gives the models as a list of objects with an identifier each
/// is read as these identifiers, in order.
pub proof fn law_listed_models_are_read_in_order(value: &Json, ids: Seq<Seq<char>>, out: Vec<String>)
    requires
        call_ensures(extract_model_ids, (value,), out),
        json::json_get(value@, "data"@) == Some(
            JsonView::List(
                Seq::new(
                    ids.len(),
                    |i: int| JsonView::Object(seq![("id"@, JsonView::Text(ids[i]))]),
                ),
            ),
        ),
        ids.len() > 0,
        forall|i: int|
            0 <= i < ids.len() ==> (#[trigger] ids[i]).len() > 0 && text::trimmed(ids[i]) == ids[i],
    ensures
        text::views(out@) == ids,
{
    let items = Seq::new(
        ids.len(),
        |i: int| JsonView::Object(seq![("id"@, JsonView::Text(ids[i]))]),
    );
    lemma_plain_list(ids, items);
    assert(places(value@)[0] == Some(JsonView::List(items)));
    assert(ids_in(JsonView::List(items)) == list_ids(items));
}

proof fn lemma_plain_list(ids: Seq<Seq<char>>, items: Seq<JsonView>)
    requires
        items.len() == ids.len(),
        forall|i: int|
            0 <= i < ids.len() ==> #[trigger] items[i] == JsonView::Object(
                seq![("id"@, JsonView::Text(ids[i]))],
            ),
        forall|i: int|
            0 <= i < ids.len() ==> (#[trigger] ids[i]).len() > 0 && text::trimmed(ids[i]) == ids[i],
    ensures
        list_ids(items) == ids,
    decreases ids.len(),
{
    if ids.len() > 0 {
        let before = items.subrange(0, items.len() - 1);
        let earlier = ids.drop_last();
        assert forall|i: int| 0 <= i < earlier.len() implies #[trigger] before[i]
            == JsonView::Object(seq![("id"@, JsonView::Text(earlier[i]))]) by {
            assert(before[i] == items[i]);
            assert(earlier[i] == ids[i]);
        }
        assert forall|i: int| 0 <= i < earlier.len() implies (#[trigger] earlier[i]).len() > 0
            && text::trimmed(earlier[i]) == earlier[i] by {
            assert(earlier[i] == ids[i]);
        }
        lemma_plain_list(earlier, before);
        let last = ids[ids.len() - 1];
        let members = seq![("id"@, JsonView::Text(last))];
        assert(items[ids.len() - 1] == JsonView::Object(members));
        lemma_one_id(last, members);
        assert(earlier + seq![last] =~= ids);
    } else {
        assert(list_ids(items) =~= ids);
    }
}

proof fn lemma_one_id(id: Seq<char>, members: Seq<(Seq<char>, JsonView)>)
    requires
        members == seq![("id"@, JsonView::Text(id))],
        id.len() > 0,
        text::trimmed(id) == id,
    ensures
        ids_in(JsonView::Object(members)) == seq![id],
{
    let none = Seq::<Seq<char>>::empty();
    let before = members.subrange(0, 0);
    assert(member_ids(before) =~= none);
    assert(ids_in(JsonView::Text(id)) =~= none);
    assert(member_ids(members) =~= seq![id]);
    assert(seq![id].drop_last() =~= none);
    assert(deduped(none) =~= none);
    assert(seq![id].last() == id);
    assert(deduped(seq![id]) =~= seq![id]);
}

} // verus!
