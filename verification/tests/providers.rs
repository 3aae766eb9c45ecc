use mote_server::auth::{save_credential, Auth};
use mote_server::config::{
    Config, GlobalPermissionConfig, HistoryConfig, LoggingConfig, ModelConfig, PromptConfig,
    ProviderOllama, ProvidersConfig, ServerConfig, UiConfig,
};
use mote_server::json::Json;
use mote_server::llm::deepseek::{
    completion_result, dedupe_strings, extract_model_ids, CompleteChoice, CompleteMessage,
    CompletionResponse, DeepSeekProvider, MaxTokensField, ReasoningDetail,
};
use mote_server::llm::github::GitHubModelsProvider;
use mote_server::llm::ollama::{
    completion_result as ollama_result, model_names, OllamaChunk, OllamaMessage, OllamaProvider,
    OllamaStream, OllamaToolCall,
};
use mote_server::llm::stream::{
    find_event_separator, ChatStream, ChunkChoice, ChunkDelta, ChunkToolCall,
    ChunkToolCallFunction, StreamChunk,
};
use mote_server::llm::{
    build_provider_for, ChatMessage, ChatOptions, Provider, StreamEvent, ToolDef,
    ToolFunctionDef, Usage,
};
use mote_server::strmap::StrMap;

fn object(members: Vec<(&str, Json)>) -> Json {
    Json::Object(members.into_iter().map(|(k, v)| (k.to_string(), v)).collect())
}

fn text(s: &str) -> Json {
    Json::Text(s.to_string())
}

fn provider(
    name: &str,
    chat_path: &str,
    models_path: &str,
    field: MaxTokensField,
    decimals: Option<u32>,
    split: bool,
) -> DeepSeekProvider {
    DeepSeekProvider {
        provider_name: name.into(),
        api_key: "key".into(),
        base_url: "https://api.example.com".into(),
        chat_path: chat_path.into(),
        models_path: models_path.into(),
        max_tokens_field: field,
        temperature_decimals: decimals,
        reasoning_split: split,
    }
}

fn config() -> Config {
    Config {
        model: ModelConfig {
            provider: "ollama".into(),
            model_id: "m".into(),
            temperature: 0.3f32.to_bits(),
            max_tokens: 4096,
        },
        providers: ProvidersConfig {
            deepseek: None,
            github: None,
            ollama: Some(ProviderOllama {
                base_url: "http://localhost:11434/".into(),
                default_model: None,
                default_max_tokens: None,
            }),
        },
        history: HistoryConfig { dir: "history".into() },
        prompts: PromptConfig::default(),
        ui: UiConfig::default(),
        agents: StrMap::new(),
        permissions: GlobalPermissionConfig::default(),
        server: ServerConfig::default(),
        logging: LoggingConfig { dir: "logs".into() },
    }
}

#[test]
fn test_glm_provider_uses_live_models_path() {
    let auth = save_credential(Auth::default(), "glm", "api_key", "key").unwrap();
    let provider = DeepSeekProvider::new_glm(&config(), &auth, &StrMap::new()).unwrap();
    assert_eq!(provider.base_url, "https://api.z.ai/api");
    assert_eq!(provider.models_path, "/paas/v4/models");
}

#[test]
fn test_extract_model_ids_handles_openai_shape() {
    let value = object(vec![(
        "data",
        Json::List(vec![
            object(vec![("id", text("kimi-k2.6"))]),
            object(vec![("id", text("kimi-k2.7-code"))]),
        ]),
    )]);
    assert_eq!(
        extract_model_ids(&value),
        vec!["kimi-k2.6".to_string(), "kimi-k2.7-code".to_string()]
    );
}

#[test]
fn test_extract_model_ids_handles_nested_models_shape() {
    let value = object(vec![(
        "data",
        object(vec![(
            "models",
            Json::List(vec![
                object(vec![("name", text("glm-5.2"))]),
                object(vec![("name", text("glm-4.7-flash"))]),
            ]),
        )]),
    )]);
    assert_eq!(
        extract_model_ids(&value),
        vec!["glm-5.2".to_string(), "glm-4.7-flash".to_string()]
    );
}

#[test]
fn test_extract_model_ids_handles_model_id_variants() {
    let value = object(vec![(
        "result",
        object(vec![(
            "items",
            Json::List(vec![
                object(vec![("model_id", text("glm-5.2"))]),
                object(vec![("model_name", text("glm-4.7-flash"))]),
                object(vec![("api_model", text("glm-4.6"))]),
            ]),
        )]),
    )]);
    assert_eq!(
        extract_model_ids(&value),
        vec!["glm-5.2".to_string(), "glm-4.7-flash".to_string(), "glm-4.6".to_string()]
    );
}

#[test]
fn test_extract_model_ids_ignores_blank_ids() {
    let value = object(vec![(
        "data",
        Json::List(vec![
            object(vec![("id", text(""))]),
            object(vec![("id", text("   "))]),
            object(vec![("name", text("kimi-k2.6"))]),
            object(vec![("model_id", text("\tkimi-k2.7\n"))]),
        ]),
    )]);
    assert_eq!(
        extract_model_ids(&value),
        vec!["kimi-k2.6".to_string(), "kimi-k2.7".to_string()]
    );
}

#[test]
fn deepseek_test_find_event_separator_supports_lf_and_crlf() {
    assert_eq!(find_event_separator(b"data: one\n\nrest"), Some((9, 2)));
    assert_eq!(find_event_separator(b"data: one\r\n\r\nrest"), Some((9, 4)));
    assert_eq!(find_event_separator(b"data: one"), None);
}

#[test]
fn github_test_find_event_separator_supports_lf_and_crlf() {
    assert_eq!(find_event_separator(b"data: one\n\nrest"), Some((9, 2)));
    assert_eq!(find_event_separator(b"data: one\r\n\r\nrest"), Some((9, 4)));
    assert_eq!(find_event_separator(b"data: one"), None);
}

#[test]
fn test_build_request_uses_max_completion_tokens_when_configured() {
    let provider = provider(
        "Kimi",
        "/v1/chat/completions",
        "/v1/models",
        MaxTokensField::MaxCompletionTokens,
        None,
        false,
    );
    let options = ChatOptions {
        model_id: "kimi-k2.6".into(),
        max_tokens: 123,
        ..ChatOptions::default()
    };
    let body = provider.build_request(
        &vec![ChatMessage::user("hi")],
        &options,
        true,
        Json::Float("0.3".into()),
    );
    assert_eq!(body.uint("max_completion_tokens"), Some(123));
    assert!(body.get("max_tokens").is_none());
}

#[test]
fn test_build_request_enables_reasoning_split_for_minimax() {
    let provider = provider(
        "MiniMax",
        "/v1/chat/completions",
        "/v1/models",
        MaxTokensField::MaxCompletionTokens,
        None,
        true,
    );
    let body = provider.build_request(
        &vec![ChatMessage::user("hi")],
        &ChatOptions::default(),
        false,
        Json::Float("0.3".into()),
    );
    assert!(matches!(body.get("reasoning_split"), Some(Json::Bool(true))));
}

#[test]
fn requests_offer_tools() {
    let options = ChatOptions {
        model_id: "m".into(),
        tools: vec![ToolDef {
            def_type: "function".into(),
            function: ToolFunctionDef {
                name: "read".into(),
                description: "Reads".into(),
                parameters: object(vec![("type", text("object"))]),
            },
        }],
        ..ChatOptions::default()
    };
    let messages = vec![ChatMessage::system("be nice"), ChatMessage::user("hi")];
    let github = GitHubModelsProvider { token: "t".into(), base_url: "https://x".into() };
    let body = github.build_request(&messages, &options, true, Json::Float("0.3".into()));
    assert_eq!(body.text("model").as_deref(), Some("m"));
    assert_eq!(body.text("tool_choice").as_deref(), Some("auto"));
    assert_eq!(body.uint("max_tokens"), Some(4096));
    assert!(matches!(body.get("stream"), Some(Json::Bool(true))));
    match body.get("messages") {
        Some(Json::List(list)) => {
            assert_eq!(list.len(), 2);
            assert_eq!(list[1].text("content").as_deref(), Some("hi"));
        }
        _ => panic!("messages are a list"),
    }

    let ollama = OllamaProvider { base_url: "http://localhost:11434".into() };
    let body = ollama.build_request(&messages, &options, false, Json::Float("0.3".into()));
    assert_eq!(body.get("options").unwrap().uint("num_predict"), Some(4096));
    match body.get("tools") {
        Some(Json::List(list)) => assert_eq!(
            list[0].get("function").unwrap().text("name").as_deref(),
            Some("read")
        ),
        _ => panic!("tools are a list"),
    }
}

#[test]
fn providers_are_built_by_name() {
    let config = config();
    let env = StrMap::new();
    let mut auth = Auth::default();
    for name in ["glm", "kimi", "minimax"] {
        auth = save_credential(auth, name, "api_key", "k").unwrap();
    }
    match build_provider_for(&config, &auth, &env, "ollama") {
        Ok(Provider::Ollama(p)) => {
            assert_eq!(p.base_url, "http://localhost:11434");
            assert_eq!(p.chat_url(), "http://localhost:11434/api/chat");
            assert_eq!(p.models_url(), "http://localhost:11434/api/tags");
            assert_eq!(p.api_error("500 x", "body"), "Ollama API error (500 x): body");
        }
        _ => panic!("ollama is configured"),
    }
    match build_provider_for(&config, &auth, &env, "kimi") {
        Ok(Provider::DeepSeek(p)) => {
            assert_eq!(p.chat_url(), "https://api.moonshot.ai/v1/chat/completions");
            assert_eq!(p.max_tokens_field, MaxTokensField::MaxCompletionTokens);
            assert!(!p.reasoning_split);
            assert_eq!(p.api_error("401", "no"), "Kimi API error (401): no");
            assert_eq!(p.list_error("401", "no"), "Kimi model list API error (401): no");
            assert_eq!(p.stream_ended(), "Kimi stream ended before completion marker");
        }
        _ => panic!("kimi has a key"),
    }
    match build_provider_for(&config, &auth, &env, "minimax") {
        Ok(Provider::DeepSeek(p)) => assert!(p.reasoning_split),
        _ => panic!("minimax has a key"),
    }
    let auth = save_credential(auth, "github", "token", "ghp").unwrap();
    match build_provider_for(&config, &auth, &env, "github") {
        Ok(Provider::GitHub(p)) => {
            assert_eq!(p.token, "ghp");
            assert_eq!(p.chat_url(), "https://models.github.ai/inference/chat/completions");
        }
        _ => panic!("github has a token"),
    }
    assert_eq!(
        build_provider_for(&config, &Auth::default(), &env, "github").err().unwrap(),
        "No GitHub token found in auth.json. Run --login github first."
    );
    assert!(build_provider_for(&config, &auth, &env, "deepseek").is_err());
    assert_eq!(
        build_provider_for(&config, &auth, &env, "acme").err().unwrap(),
        "Unknown provider 'acme'. Supported: deepseek, glm, kimi, minimax, ollama"
    );
    assert_eq!(
        build_provider_for(&config, &Auth::default(), &env, "glm").err().unwrap(),
        "No API key found for provider 'glm'. Add it to ~/.config/mote/auth.json"
    );
}

#[test]
fn model_listings_are_parsed() {
    let provider =
        provider("Kimi", "/chat", "/models", MaxTokensField::MaxTokens, None, false);
    assert_eq!(
        provider.models_from_body(r#"{"data":[{"id":"b"},{"id":" a "},{"id":"b"}]}"#).unwrap(),
        vec!["b".to_string(), "a".to_string(), "b".to_string()]
    );
    assert_eq!(provider.models_from_body("{}").unwrap(), Vec::<String>::new());
    let error = provider.models_from_body("nonsense").unwrap_err();
    assert!(error.starts_with("Failed to parse Kimi model list response as JSON: "));
    assert!(error.len() > "Failed to parse Kimi model list response as JSON: ".len());
}

#[test]
fn names_are_listed_once() {
    let values = vec!["  a ".to_string(), "".to_string(), "b".to_string(), "a".to_string()];
    assert_eq!(dedupe_strings(values), vec!["a".to_string(), "b".to_string()]);
}

#[test]
fn whole_answers_are_taken() {
    let response = CompletionResponse {
        choices: vec![CompleteChoice {
            message: CompleteMessage {
                content: Some("hi".into()),
                tool_calls: None,
                reasoning_content: None,
                reasoning_details: Some(vec![
                    ReasoningDetail { text: Some("be".into()) },
                    ReasoningDetail { text: None },
                    ReasoningDetail { text: Some("cause".into()) },
                ]),
            },
            finish_reason: "stop".into(),
        }],
        usage: Some(Usage { prompt_tokens: 1, completion_tokens: 2, total_tokens: 3 }),
    };
    let result = completion_result(&response).unwrap();
    assert_eq!(result.content.as_deref(), Some("hi"));
    assert_eq!(result.reasoning_content.as_deref(), Some("because"));
    assert_eq!(result.usage.total_tokens, 3);
    assert!(result.tool_calls.is_empty());

    let empty = CompletionResponse { choices: Vec::new(), usage: None };
    assert_eq!(completion_result(&empty).err().unwrap(), "Empty choices");
}

fn delta(content: Option<&str>, calls: Vec<(usize, Option<&str>, Option<&str>, &str)>) -> StreamChunk {
    StreamChunk {
        choices: vec![ChunkChoice {
            delta: ChunkDelta {
                content: content.map(|c| c.to_string()),
                tool_calls: Some(
                    calls
                        .into_iter()
                        .map(|(index, id, name, arguments)| ChunkToolCall {
                            index,
                            id: id.map(|s| s.to_string()),
                            function: Some(ChunkToolCallFunction {
                                name: name.map(|s| s.to_string()),
                                arguments: Some(arguments.to_string()),
                            }),
                        })
                        .collect(),
                ),
                reasoning_content: None,
            },
            finish_reason: None,
            usage: None,
        }],
        usage: None,
    }
}

#[test]
fn streams_are_cut_into_events() {
    let bytes = b"data: one\n\n: comment\n\ndata: two\r\ndata:  three \r\n\r\ndata: fo";
    let mut whole = ChatStream::new();
    let expected = vec!["one".to_string(), "two".to_string(), "three".to_string()];
    assert_eq!(whole.feed(bytes), expected);

    let mut piecewise = ChatStream::new();
    let mut payloads = Vec::new();
    for b in bytes.iter() {
        payloads.append(&mut piecewise.feed(&[*b]));
    }
    assert_eq!(payloads, expected);
    assert_eq!(piecewise.feed(b"ur\n\n"), vec!["four".to_string()]);
}

#[test]
fn text_that_is_not_utf8_is_passed_over() {
    let mut stream = ChatStream::new();
    assert_eq!(stream.feed(b"data: \xff\n\ndata: ok\n\n"), vec!["ok".to_string()]);
}

#[test]
fn streamed_calls_are_put_together() {
    let mut stream = ChatStream::new();
    let events = stream.payload(
        "x",
        Some(delta(Some("he"), vec![(1, Some("b"), Some("write"), "{\"a"), (0, Some("a"), Some("read"), "{}")])),
    );
    assert!(matches!(events[0], StreamEvent::Chunk(ref s) if s == "he"));
    stream.payload("x", Some(delta(Some("llo"), vec![(1, None, None, "\":1}"), (2, None, Some("lost"), "")])));
    stream.payload("not a chunk", None);
    let events = stream.payload("[DONE]", None);
    assert_eq!(events.len(), 1);
    let result = match &events[0] {
        StreamEvent::Done(result) => result,
        _ => panic!("the marker completes the answer"),
    };
    assert_eq!(result.content.as_deref(), Some("hello"));
    assert_eq!(result.tool_calls.len(), 2);
    assert_eq!(result.tool_calls[0].id, "a");
    assert_eq!(result.tool_calls[1].function.arguments, "{\"a\":1}");
    assert!(stream.finished);
    assert!(stream.text.is_empty() && stream.calls.is_empty() && stream.reasoning.is_none());
}

#[test]
fn streams_without_a_marker_are_told_apart() {
    let deepseek = provider("DeepSeek", "/c", "/m", MaxTokensField::MaxTokens, None, false);
    let github = GitHubModelsProvider { token: "t".into(), base_url: "u".into() };
    let mut stream = ChatStream::new();
    let first = stream.payload("x", Some(delta(Some("he"), vec![])));
    let second = stream.payload("x", Some(delta(Some("llo"), vec![])));
    assert!(matches!(first[..], [StreamEvent::Chunk(ref s)] if s == "he"));
    assert!(matches!(second[..], [StreamEvent::Chunk(ref s)] if s == "llo"));
    assert_eq!(
        deepseek.closed(&stream).as_deref(),
        Some("DeepSeek stream ended before completion marker")
    );
    let so_far = github.closed(&stream).unwrap();
    assert_eq!(so_far.content.as_deref(), Some("hello"));
    let last = stream.payload("[DONE]", None);
    assert!(matches!(last[..], [StreamEvent::Done(ref r)]
        if r.content.as_deref() == Some("hello")));
    assert!(deepseek.closed(&stream).is_none());
    assert!(github.closed(&stream).is_none());
}

#[test]
fn answers_without_text_have_no_content() {
    let mut stream = ChatStream::new();
    assert_eq!(stream.result().content.as_deref(), Some(""));
    stream.payload("x", Some(delta(None, vec![(0, Some("a"), Some("read"), "{}")])));
    assert!(stream.result().content.is_none());
}

fn ollama_chunk(content: Option<&str>, calls: Option<Vec<OllamaToolCall>>, done: bool) -> OllamaChunk {
    OllamaChunk {
        message: Some(OllamaMessage {
            content: content.map(|c| c.to_string()),
            tool_calls: calls,
        }),
        done,
        done_reason: if done { Some("stop".into()) } else { None },
        prompt_eval_count: if done { Some(7) } else { None },
        eval_count: None,
    }
}

#[test]
fn ollama_streams_lines() {
    let mut stream = OllamaStream::new();
    assert_eq!(stream.feed(b" {\"a\":1}\n\n{\"b\""), vec!["{\"a\":1}".to_string()]);
    assert_eq!(stream.feed(b":2}\n"), vec!["{\"b\":2}".to_string()]);

    let events = stream.chunk(&ollama_chunk(Some("hi"), None, false), 0);
    assert!(matches!(events[0], StreamEvent::Chunk(ref s) if s == "hi"));
    assert_eq!(stream.closed().err().unwrap(), "Ollama stream ended before done=true");
    let call = OllamaToolCall { name: "read".into(), arguments: "{}".into() };
    stream.chunk(&ollama_chunk(Some(""), Some(vec![call]), true), 41);
    let result = stream.closed().unwrap();
    assert_eq!(result.content.as_deref(), Some("hi"));
    assert_eq!(result.tool_calls[0].id, "ollama_read_41");
    assert_eq!(result.usage.prompt_tokens, 7);
    assert_eq!(result.usage.completion_tokens, 0);
    assert_eq!(result.finish_reason.as_deref(), Some("stop"));
}

#[test]
fn ollama_answers_at_once() {
    let call = OllamaToolCall { name: "read".into(), arguments: "{\"x\":1}".into() };
    let result = ollama_result(&ollama_chunk(Some("hi"), Some(vec![call]), true), 5);
    assert_eq!(result.content.as_deref(), Some("hi"));
    assert_eq!(result.tool_calls[0].id, "ollama_read_5");
    assert_eq!(result.tool_calls[0].function.arguments, "{\"x\":1}");
}

#[test]
fn ollama_models_are_listed() {
    let value = object(vec![(
        "models",
        Json::List(vec![
            object(vec![("name", text("llama"))]),
            object(vec![("size", Json::UInt(3))]),
            object(vec![("name", text("qwen"))]),
        ]),
    )]);
    assert_eq!(model_names(&value), vec!["llama".to_string(), "qwen".to_string()]);
    assert!(model_names(&Json::Null).is_empty());
}

#[test]
fn github_models_are_fixed() {
    let config = config();
    let env = StrMap::new();
    let auth = save_credential(Auth::default(), "github", "token", "ghp").unwrap();
    let github = GitHubModelsProvider::new(&config, &auth, &env).unwrap();
    assert_eq!(github.token, "ghp");
    assert_eq!(github.chat_url(), "https://models.github.ai/inference/chat/completions");
    assert_eq!(github.api_error("403", "x"), "GitHub Models API error (403): x");
    let models = github.list_models();
    assert_eq!(
        models,
        vec![
            "gpt-4o",
            "gpt-4o-mini",
            "o3-mini",
            "o4-mini",
            "deepseek-r1",
            "deepseek-v3",
            "meta-llama-4-scout",
            "mistral-large",
        ]
    );
    assert!(GitHubModelsProvider::new(&config, &Auth::default(), &env).is_err());
}
