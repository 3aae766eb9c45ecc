use mote_server::auth::{save_credential, save_token_to_auth, Auth, ProviderAuth};
use mote_server::strmap::StrMap;

fn auth_with(provider: &str, api_key: Option<&str>, token: Option<&str>) -> Auth {
    let mut auth = Auth::default();
    auth.providers.insert(
        provider.into(),
        ProviderAuth {
            api_key: api_key.map(|s| s.to_string()),
            token: token.map(|s| s.to_string()),
            extra: StrMap::new(),
        },
    );
    auth
}

#[test]
fn test_auth_default_is_empty() {
    let auth = Auth::default();
    assert!(auth.providers.is_empty());
    assert!(auth.api_key("deepseek").is_none());
    assert!(auth.token("github").is_none());
}

#[test]
fn test_provider_auth_api_key_and_token() {
    let pa = ProviderAuth {
        api_key: Some("sk-key".into()),
        token: Some("ghp-token".into()),
        extra: StrMap::new(),
    };
    assert_eq!(pa.api_key(), Some("sk-key"));
    assert_eq!(pa.token(), Some("ghp-token"));
}

#[test]
fn test_provider_auth_empty() {
    let pa = ProviderAuth::default();
    assert!(pa.api_key().is_none());
    assert!(pa.token().is_none());
}

#[test]
fn test_auth_api_key_via_provider() {
    let mut providers = StrMap::new();
    providers.insert(
        "deepseek".into(),
        ProviderAuth { api_key: Some("sk-123".into()), token: None, extra: StrMap::new() },
    );
    let auth = Auth { providers };
    assert_eq!(auth.api_key("deepseek"), Some("sk-123"));
    assert!(auth.api_key("ollama").is_none());
}

#[test]
fn test_save_token_adds_to_empty_auth() {
    let auth = Auth::default();
    assert!(auth.token("github").is_none());
    let auth = save_token_to_auth(auth, "github", "ghp_new").unwrap();
    assert_eq!(auth.token("github").unwrap(), "ghp_new");
}

#[test]
fn test_save_token_roundtrip() {
    let auth = save_token_to_auth(Auth::default(), "github", "ghp_test_token").unwrap();
    assert_eq!(auth.token("github").unwrap(), "ghp_test_token");
    assert!(auth.api_key("github").is_none());
}

#[test]
fn test_save_credential_roundtrip_via_tempfile() {
    let auth = save_credential(Auth::default(), "deepseek", "api_key", "sk-test").unwrap();
    assert_eq!(auth.api_key("deepseek").unwrap(), "sk-test");
    assert!(auth.token("deepseek").is_none());
}

#[test]
fn test_save_credential_roundtrip_token_field() {
    let auth = save_credential(Auth::default(), "github", "token", "ghp-test").unwrap();
    assert_eq!(auth.token("github").unwrap(), "ghp-test");
    assert!(auth.api_key("github").is_none());
}

#[test]
fn test_credential_fields_are_independent() {
    let auth = auth_of(r#"{"deepseek": { "api_key": "sk-a", "token": "tok-b" }}"#);
    let ds = auth.for_provider("deepseek").unwrap();
    assert_eq!(ds.api_key(), Some("sk-a"));
    assert_eq!(ds.token(), Some("tok-b"));
}

/// The credentials in the text of a credentials file.
fn auth_of(json5_str: &str) -> Auth {
    let value: serde_json::Value = json5::from_str(json5_str).unwrap();
    let mut auth = Auth::default();
    for (name, fields) in value.as_object().unwrap() {
        let mut provider = ProviderAuth::default();
        for (field, v) in fields.as_object().unwrap() {
            let v = v.as_str().unwrap().to_string();
            match field.as_str() {
                "api_key" => provider.api_key = Some(v),
                "token" => provider.token = Some(v),
                _ => provider.extra.insert(field.clone(), v),
            }
        }
        auth.providers.insert(name.clone(), provider);
    }
    auth
}

#[test]
fn test_parse_json5_with_comments() {
    let auth = auth_of(
        r#"
        {
            // DeepSeek API key
            "deepseek": { "api_key": "sk-test-key" },
            "github": { "token": "ghp_test_token" },
            "ollama": {}
        }
        "#,
    );
    assert_eq!(auth.api_key("deepseek").unwrap(), "sk-test-key");
    assert_eq!(auth.token("github").unwrap(), "ghp_test_token");
    assert!(auth.for_provider("ollama").is_some());
    assert!(auth.for_provider("nonexistent").is_none());
}

#[test]
fn test_json5_with_extra_field() {
    let auth = auth_of(r#"{"custom_provider": { "api_key": "k", "extra_field": "v" }}"#);
    let pa = auth.for_provider("custom_provider").unwrap();
    assert_eq!(pa.api_key(), Some("k"));
    assert_eq!(pa.extra.get("extra_field").unwrap(), "v");
}

#[test]
fn saving_keeps_other_credentials() {
    let auth = auth_with("deepseek", Some("sk-a"), Some("tok-b"));
    let auth = save_credential(auth, "deepseek", "api_key", "sk-c").unwrap();
    assert_eq!(auth.api_key("deepseek"), Some("sk-c"));
    assert_eq!(auth.token("deepseek"), Some("tok-b"));
    let auth = save_credential(auth, "github", "token", "t").unwrap();
    assert_eq!(auth.api_key("deepseek"), Some("sk-c"));
    assert_eq!(auth.token("github"), Some("t"));
}

#[test]
fn unknown_fields_are_refused() {
    let error = save_credential(Auth::default(), "deepseek", "secret", "x").err().unwrap();
    assert_eq!(error, "Unknown credential field 'secret'");
}

#[test]
fn unreadable_credentials_are_none() {
    assert!(Auth::load(None).providers.is_empty());
    assert!(Auth::load(Some(Err("bad".into()))).providers.is_empty());
    let kept = Auth::load(Some(Ok(auth_with("kimi", Some("k"), None))));
    assert_eq!(kept.api_key("kimi"), Some("k"));
}

#[test]
fn saving_a_token_keeps_further_fields() {
    let mut auth = auth_with("github", Some("key"), Some("old"));
    let mut entry = auth.providers.take("github").unwrap();
    entry.extra.insert("org".into(), "acme".into());
    auth.providers.insert("github".into(), entry);
    let saved = save_token_to_auth(auth, "github", "new").unwrap();
    let kept = saved.for_provider("github").unwrap();
    assert_eq!(kept.token(), Some("new"));
    assert_eq!(kept.api_key(), Some("key"));
    assert_eq!(kept.extra.get("org").map(String::as_str), Some("acme"));
}

#[test]
fn test_load_from_nonexistent_file_returns_empty() {
    let missing = Auth::load(None);
    assert!(missing.providers.is_empty());
    let unread: Result<Auth, String> =
        Err("Failed to read /tmp/__nonexistent_auth_file_xyz__".into());
    assert!(unread.is_err());
    assert!(Auth::load(Some(unread)).providers.is_empty());
}
