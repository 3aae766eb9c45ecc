//! GitHub Models: requests and the models that it offers.

use super::deepseek;
use super::stream::ChatStream;
use crate::auth::Auth;
use crate::config;
use crate::config::Config;
use crate::json::{Json, JsonView};
use crate::llm::{ChatMessage, ChatMessageView, ChatOptions, ChatOptionsView, ChatResult};
use crate::strmap::StrMap;
use crate::text;
use vstd::prelude::*;
use vstd::string::*;

verus! {

/// How GitHub Models is talked to.
#[derive(Debug)]
pub struct GitHubModelsProvider {
    pub token: String,
    pub base_url: String,
}

/// The body of a chat request.
pub open spec fn request(
    messages: Seq<ChatMessageView>,
    options: ChatOptionsView,
    stream: bool,
    temperature: JsonView,
) -> Seq<(Seq<char>, JsonView)> {
    deepseek::request_start(options, messages, stream, temperature).push(
        ("max_tokens"@, JsonView::UInt(options.max_tokens as u64)),
    ) + deepseek::tools_members(options.tools)
}

/// The names of the models that are listed. GitHub Models offers more than
/// these: a model of one further maker is not in the list.
pub open spec fn offered_models() -> Seq<Seq<char>> {
    seq![
        "gpt-4o"@,
        "gpt-4o-mini"@,
        "o3-mini"@,
        "o4-mini"@,
        "deepseek-r1"@,
        "deepseek-v3"@,
        "meta-llama-4-scout"@,
        "mistral-large"@,
    ]
}

impl GitHubModelsProvider {
    /// GitHub Models, as it is configured.
    pub fn new(config: &Config, auth: &Auth, env: &StrMap<String>) -> (r: Result<
        GitHubModelsProvider,
        String,
    >)
        ensures
            match config::github_token(*auth, env@) {
                Ok(token) => r matches Ok(p) && p.token@ == token && p.base_url@
                    == config.github_url(env@),
                Err(e) => r matches Err(error) && error@ == e,
            },
    {
        let token = match config.resolve_github_token(auth, env) {
            Ok(token) => token,
            Err(e) => {
                return Err(e);
            },
        };
        let base_url = match config.github_base_url(env) {
            Ok(url) => url,
            Err(e) => {
                return Err(e);
            },
        };
        Ok(GitHubModelsProvider { token, base_url })
    }

    /// Where chat requests go.
    pub fn chat_url(&self) -> (s: String)
        ensures
            s@ == self.base_url@ + "/chat/completions"@,
    {
        text::cat2(self.base_url.as_str(), "/chat/completions")
    }

    /// What is reported when GitHub Models answers with an error.
    pub fn api_error(&self, status: &str, body: &str) -> (s: String)
        ensures
            s@ == deepseek::refusal_text("GitHub Models API error ("@, status@, body@),
    {
        let mut s = "GitHub Models API error (".to_owned();
        deepseek::append_refusal(&mut s, status, body);
        s
    }

    /// The body of a chat request.
    pub fn build_request(
        &self,
        messages: &Vec<ChatMessage>,
        options: &ChatOptions,
        stream: bool,
        temperature: Json,
    ) -> (body: Json)
        ensures
            body@ == JsonView::Object(
                request(ChatMessage::views(messages@), options@, stream, temperature@),
            ),
    {
        let mut members = deepseek::start_request(messages, options, stream, temperature);
        Json::push_member(&mut members, "max_tokens", Json::UInt(options.max_tokens as u64));
        deepseek::push_tools(&mut members, &options.tools);
        Json::object(members)
    }

    /// The stream has ended: what there is of its answer where it is not
    /// complete, and otherwise nothing more.
    pub fn closed(&self, answer: &ChatStream) -> (r: Option<ChatResult>)
        ensures
            answer@.finished ==> r is None,
            !answer@.finished ==> (r matches Some(result) && result@ == answer@.result()),
    {
        if answer.finished {
            None
        } else {
            Some(answer.result())
        }
    }

    /// The names of the models that are listed: there is no listing to ask for.
    /// A model of one further maker is left out.
    pub fn list_models(&self) -> (models: Vec<String>)
        ensures
            text::views(models@) == offered_models(),
    {
        let mut models: Vec<String> = Vec::new();
        models.push("gpt-4o".to_owned());
        models.push("gpt-4o-mini".to_owned());
        models.push("o3-mini".to_owned());
        models.push("o4-mini".to_owned());
        models.push("deepseek-r1".to_owned());
        models.push("deepseek-v3".to_owned());
        models.push("meta-llama-4-scout".to_owned());
        models.push("mistral-large".to_owned());
        assert(text::views(models@) =~= offered_models());
        models
    }
}


} // verus!
