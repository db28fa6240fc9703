use pi_omp_setup::config::{
    base_url, base_url_from_parts, default_model, parse_config, validate, ConfigError,
    ModelConfig, UrlParts, DEFAULT_MODEL, PROVIDER,
};
use pi_omp_setup::documents::merge_models;
use pi_omp_setup::json::Json;
use serde_json::Value;

fn to_json(v: &Value) -> Json {
    match v {
        Value::Null => Json::Null,
        Value::Bool(b) => Json::Bool(*b),
        Value::Number(n) => Json::Number(n.to_string()),
        Value::String(s) => Json::Str(s.clone()),
        Value::Array(a) => {
            let mut j = Json::new_array();
            for x in a {
                j.push(to_json(x));
            }
            j
        }
        Value::Object(m) => {
            let mut j = Json::new_object();
            for (k, x) in m {
                j.set(k, to_json(x));
            }
            j
        }
    }
}

fn from_json(j: &Json) -> Value {
    match j {
        Json::Null => Value::Null,
        Json::Bool(b) => Value::Bool(*b),
        Json::Number(t) => serde_json::from_str(t).unwrap(),
        Json::Str(s) => Value::String(s.clone()),
        Json::Array(a) => Value::Array(a.iter().map(from_json).collect()),
        Json::Object(m) => Value::Object(m.iter().map(|(k, v)| (k.clone(), from_json(v))).collect()),
    }
}

fn config() -> ModelConfig {
    ModelConfig {
        endpoint: "https://example.invalid/".into(),
        api_key: "test-placeholder".into(),
        model_id: DEFAULT_MODEL.into(),
    }
}

#[test]
fn preserves_other_models_and_compat_options() {
    let mut value = to_json(
        &serde_json::from_str::<Value>(
            r#"{"providers": {"hotschmoe-local": {
            "headers": {"X-Custom": "preserved"},
            "models": [
                {"id": "other", "name": "Existing"},
                {"id": "hotschmoe-dd", "compat": {"supportsUsageInStreaming": false}, "headers": {"X-Model": "preserved"}}
            ]
        }}}"#,
        )
        .unwrap(),
    );
    merge_models(&mut value, &config(), "https://example.invalid/v1").unwrap();
    let value = from_json(&value);
    let provider = &value["providers"][PROVIDER];
    assert_eq!(provider["headers"]["X-Custom"], "preserved");
    assert_eq!(provider["models"][0]["name"], "Existing");
    assert_eq!(
        provider["models"][1]["compat"]["supportsUsageInStreaming"],
        false
    );
    assert_eq!(
        provider["models"][1]["compat"]["supportsReasoningEffort"],
        false
    );
    assert_eq!(provider["models"][1]["headers"]["X-Model"], "preserved");
}

#[test]
fn rejects_secret_commands_and_bad_urls_without_echoing() {
    let mut c = config();
    for endpoint in [
        "http://example.invalid",
        "https://secret@example.invalid",
        "https://example.invalid/private",
        "https://example.invalid?secret",
    ] {
        c.endpoint = endpoint.into();
        let error = base_url(&c).unwrap_err().message().to_string();
        assert!(!error.contains("secret"));
    }
    c = config();
    c.api_key = "!run-secret-command".into();
    assert!(base_url(&c).is_err());
    let c = ModelConfig::from_json(&to_json(
        &serde_json::from_str::<Value>(
            r#"{"endpoint":"https://example.invalid","api_key":"placeholder"}"#,
        )
        .unwrap(),
    ))
    .unwrap();
    assert_eq!(c.model_id, DEFAULT_MODEL);
}

#[test]
fn base_url_sets_the_v1_path() {
    assert_eq!(base_url(&config()).unwrap(), "https://example.invalid/v1");
    let mut c = config();
    for (endpoint, expected) in [
        ("https://example.invalid", "https://example.invalid/v1"),
        ("https://example.invalid/v1", "https://example.invalid/v1"),
        ("https://example.invalid/v1/", "https://example.invalid/v1"),
        ("https://example.invalid:8443/", "https://example.invalid:8443/v1"),
    ] {
        c.endpoint = endpoint.into();
        assert_eq!(base_url(&c).unwrap(), expected);
    }
}

#[test]
fn each_validation_error_has_its_input() {
    let mut c = config();
    c.endpoint = "not a url".into();
    assert_eq!(base_url(&c).unwrap_err(), ConfigError::InvalidEndpoint);
    c.endpoint = "https://example.invalid/#frag".into();
    assert_eq!(base_url(&c).unwrap_err(), ConfigError::EndpointNotAllowed);
    c.endpoint = "https://user:pw@example.invalid/".into();
    assert_eq!(base_url(&c).unwrap_err(), ConfigError::EndpointNotAllowed);
    let mut c = config();
    c.api_key = "  \t ".into();
    assert_eq!(validate(&c).unwrap_err(), ConfigError::InvalidApiKey);
    c.api_key = "  !cmd".into();
    assert_eq!(validate(&c).unwrap_err(), ConfigError::InvalidApiKey);
    c.api_key = "key\u{7}".into();
    assert_eq!(validate(&c).unwrap_err(), ConfigError::InvalidApiKey);
    c.api_key = "key!inside".into();
    assert!(validate(&c).is_ok());
    for bad in ["", "a b", "a:b", "a*b", "a?b", "a>b", "a@b", "a\nb"] {
        let mut c = config();
        c.model_id = bad.into();
        assert_eq!(validate(&c).unwrap_err(), ConfigError::InvalidModelId);
    }
    assert_eq!(default_model(), "hotschmoe-dd");
}

#[test]
fn checks_on_the_parsed_parts_alone() {
    let parts = UrlParts {
        scheme: "https".into(),
        has_host: true,
        username: String::new(),
        has_password: false,
        has_query: false,
        has_fragment: false,
        path: "/v1/".into(),
    };
    assert_eq!(
        base_url_from_parts(Some(parts), Some("https://h/v1".into()), &config()).unwrap(),
        "https://h/v1"
    );
    let no_host = UrlParts {
        scheme: "https".into(),
        has_host: false,
        username: String::new(),
        has_password: false,
        has_query: false,
        has_fragment: false,
        path: "/".into(),
    };
    assert_eq!(
        base_url_from_parts(Some(no_host), Some("https:/v1".into()), &config()).unwrap_err(),
        ConfigError::EndpointNotAllowed
    );
    assert_eq!(
        base_url_from_parts(None, None, &config()).unwrap_err(),
        ConfigError::InvalidEndpoint
    );
}

#[test]
fn reads_configurations_as_documents() {
    let read = |text: &str| parse_config(&to_json(&serde_json::from_str::<Value>(text).unwrap()));
    let c = read(r#"{"endpoint":"https://e.invalid","api_key":"k","model_id":"m1"}"#).unwrap();
    assert_eq!((c.endpoint.as_str(), c.api_key.as_str(), c.model_id.as_str()), ("https://e.invalid", "k", "m1"));
    assert_eq!(
        read(r#"{"endpoint":"https://e.invalid","api_key":"k","extra":1}"#).unwrap_err(),
        ConfigError::NotAModelConfiguration
    );
    assert_eq!(
        read(r#"{"endpoint":"https://e.invalid"}"#).unwrap_err(),
        ConfigError::NotAModelConfiguration
    );
    assert_eq!(
        read(r#"{"endpoint":"https://e.invalid","api_key":7}"#).unwrap_err(),
        ConfigError::NotAModelConfiguration
    );
    assert_eq!(
        read(r#"{"endpoint":"http://e.invalid","api_key":"k"}"#).unwrap_err(),
        ConfigError::EndpointNotAllowed
    );
    let c = read(r#"["https://e.invalid","k"]"#).unwrap();
    assert_eq!(c.model_id, DEFAULT_MODEL);
    assert!(read("[]").is_err());
    assert_eq!(
        ConfigError::InvalidApiKey.message(),
        "Invalid model API key"
    );
}
