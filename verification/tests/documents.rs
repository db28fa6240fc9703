use pi_omp_setup::config::{ConfigError, ModelConfig, DEFAULT_MODEL};
use pi_omp_setup::documents::{
    backup_suffix, check_document, decimal_text, legacy_source, merge_documents, merge_models,
    needs_write, scan_models, set_default_model, set_default_role, ClientDocuments, OmpDocument,
};
use pi_omp_setup::json::{json_equal, Json};
use serde_json::Value;

fn to_json(v: &Value) -> Json {
    match v {
        Value::Null => Json::Null,
        Value::Bool(b) => Json::Bool(*b),
        Value::Number(n) => Json::Number(n.to_string()),
        Value::String(s) => Json::Str(s.clone()),
        Value::Array(a) => {
            let mut j = Json::new_array();
            for x in a {
                j.push(to_json(x));
            }
            j
        }
        Value::Object(m) => {
            let mut j = Json::new_object();
            for (k, x) in m {
                j.set(k, to_json(x));
            }
            j
        }
    }
}

fn from_json(j: &Json) -> Value {
    match j {
        Json::Null => Value::Null,
        Json::Bool(b) => Value::Bool(*b),
        Json::Number(t) => serde_json::from_str(t).unwrap(),
        Json::Str(s) => Value::String(s.clone()),
        Json::Array(a) => Value::Array(a.iter().map(from_json).collect()),
        Json::Object(m) => Value::Object(m.iter().map(|(k, v)| (k.clone(), from_json(v))).collect()),
    }
}

fn doc(text: &str) -> Json {
    to_json(&serde_json::from_str::<Value>(text).unwrap())
}

fn config() -> ModelConfig {
    ModelConfig {
        endpoint: "https://example.invalid/".into(),
        api_key: "test-placeholder".into(),
        model_id: DEFAULT_MODEL.into(),
    }
}

fn empty_documents() -> ClientDocuments {
    ClientDocuments {
        pi_models: Json::new_object(),
        pi_settings: Json::new_object(),
        omp_models: Json::new_object(),
        omp_config: Json::new_object(),
    }
}

#[test]
fn fresh_documents_get_the_defaults() {
    let d = merge_documents(&config(), empty_documents()).unwrap();
    let m = from_json(&d.omp_models);
    let provider = &m["providers"]["hotschmoe-local"];
    assert_eq!(provider["baseUrl"], "https://example.invalid/v1");
    assert_eq!(provider["apiKey"], "test-placeholder");
    assert_eq!(provider["api"], "openai-completions");
    let model = &provider["models"][0];
    assert_eq!(model["id"], "hotschmoe-dd");
    assert_eq!(model["name"], "hotschmoe-dd");
    assert_eq!(model["contextWindow"], 200000);
    assert_eq!(model["maxTokens"], 32768);
    assert_eq!(model["reasoning"], true);
    assert_eq!(model["input"][0], "text");
    assert_eq!(model["cost"]["cacheWrite"], 0);
    assert_eq!(model["compat"]["maxTokensField"], "max_tokens");
    assert_eq!(model["compat"]["supportsStore"], false);
    let s = from_json(&d.pi_settings);
    assert_eq!(s["defaultModel"], DEFAULT_MODEL);
    assert_eq!(s["defaultProvider"], "hotschmoe-local");
    let c = from_json(&d.omp_config);
    assert_eq!(c["modelRoles"]["default"], "hotschmoe-local/hotschmoe-dd");
}

#[test]
fn merging_twice_changes_nothing() {
    let first = merge_documents(&config(), empty_documents()).unwrap();
    let keep = ClientDocuments {
        pi_models: to_json(&from_json(&first.pi_models)),
        pi_settings: to_json(&from_json(&first.pi_settings)),
        omp_models: to_json(&from_json(&first.omp_models)),
        omp_config: to_json(&from_json(&first.omp_config)),
    };
    let second = merge_documents(&config(), keep).unwrap();
    assert!(!needs_write(&first.pi_models, &second.pi_models, true));
    assert!(!needs_write(&first.pi_settings, &second.pi_settings, true));
    assert!(!needs_write(&first.omp_models, &second.omp_models, true));
    assert!(!needs_write(&first.omp_config, &second.omp_config, true));
    assert!(needs_write(&first.omp_config, &second.omp_config, false));
}

#[test]
fn a_changed_key_is_written_in_place() {
    let mut value = doc(r#"{"providers":{"other":{"apiKey":"keep","models":[]}}}"#);
    merge_models(&mut value, &config(), "https://example.invalid/v1").unwrap();
    let mut updated = config();
    updated.api_key = "changed-placeholder".into();
    let before = to_json(&from_json(&value));
    merge_models(&mut value, &updated, "https://example.invalid/v1").unwrap();
    assert!(needs_write(&before, &value, true));
    let v = from_json(&value);
    assert_eq!(v["providers"]["other"]["apiKey"], "keep");
    assert_eq!(v["providers"]["hotschmoe-local"]["apiKey"], "changed-placeholder");
    assert_eq!(v["providers"]["hotschmoe-local"]["models"].as_array().unwrap().len(), 1);
}

#[test]
fn rejects_bad_shapes_and_keeps_the_document() {
    for (bad, error) in [
        ("[]", ConfigError::FieldNotObject),
        ("null", ConfigError::FieldNotObject),
        ("{\"providers\":[]}", ConfigError::FieldNotObject),
        ("{\"providers\":{\"hotschmoe-local\":3}}", ConfigError::FieldNotObject),
        ("{\"providers\":{\"hotschmoe-local\":{\"models\":{}}}}", ConfigError::ModelsNotArray),
        ("{\"providers\":{\"hotschmoe-local\":{\"models\":[{\"name\":\"x\"}]}}}", ConfigError::ModelEntryWithoutId),
        ("{\"providers\":{\"hotschmoe-local\":{\"models\":[7]}}}", ConfigError::ModelEntryWithoutId),
        ("{\"providers\":{\"hotschmoe-local\":{\"models\":[{\"id\":\"hotschmoe-dd\"},{\"id\":\"hotschmoe-dd\"}]}}}", ConfigError::DuplicateModelIds),
        ("{\"providers\":{\"hotschmoe-local\":{\"models\":[{\"id\":\"hotschmoe-dd\",\"compat\":[]}]}}}", ConfigError::FieldNotObject),
    ] {
        let mut value = doc(bad);
        assert_eq!(
            merge_models(&mut value, &config(), "https://example.invalid/v1"),
            Err(error)
        );
        assert!(json_equal(&value, &doc(bad)));
    }
    assert_eq!(check_document(&doc("[]")), Err(ConfigError::DocumentNotObject));
    assert_eq!(check_document(&doc("{}")), Ok(()));
}

#[test]
fn all_documents_are_checked_before_any_is_returned() {
    let mut docs = empty_documents();
    docs.omp_config = doc("{\"modelRoles\":[]}");
    assert_eq!(
        merge_documents(&config(), docs).err(),
        Some(ConfigError::FieldNotObject)
    );
    let mut bad = config();
    bad.endpoint = "http://example.invalid".into();
    assert_eq!(
        merge_documents(&bad, empty_documents()).err(),
        Some(ConfigError::EndpointNotAllowed)
    );
}

#[test]
fn settings_and_roles_keep_other_fields() {
    let mut s = doc(r#"{"theme":"dark","custom":{"a":1}}"#);
    set_default_model(&mut s, &config()).unwrap();
    let v = from_json(&s);
    assert_eq!(v["custom"]["a"], 1);
    assert_eq!(v["theme"], "dark");
    assert_eq!(v["defaultModel"], "hotschmoe-dd");
    let mut r = doc(r#"{"modelRoles":{"smol":"existing/model"},"theme":{"dark":"custom"}}"#);
    set_default_role(&mut r, &config()).unwrap();
    let v = from_json(&r);
    assert_eq!(v["modelRoles"]["smol"], "existing/model");
    assert_eq!(v["modelRoles"]["default"], "hotschmoe-local/hotschmoe-dd");
    assert_eq!(v["theme"]["dark"], "custom");
    let mut bad = doc("[1]");
    assert_eq!(set_default_model(&mut bad, &config()), Err(ConfigError::FieldNotObject));
}

#[test]
fn scanning_model_lists() {
    let list = |text: &str| match doc(text) {
        Json::Array(v) => v,
        _ => unreachable!(),
    };
    assert_eq!(scan_models(&list(r#"[{"id":"a"},{"id":"b"}]"#), "b"), Ok(Some(1)));
    assert_eq!(scan_models(&list(r#"[{"id":"a"}]"#), "b"), Ok(None));
    assert_eq!(
        scan_models(&list(r#"[{"id":"b"},{"id":"b"}]"#), "b"),
        Err(ConfigError::DuplicateModelIds)
    );
}

#[test]
fn backup_names_are_numbered() {
    assert_eq!(backup_suffix(0), ".bak");
    assert_eq!(backup_suffix(1), ".bak.1");
    assert_eq!(backup_suffix(10), ".bak.10");
    assert_eq!(backup_suffix(9999), ".bak.9999");
    assert_eq!(decimal_text(0), "0");
    assert_eq!(decimal_text(4294967295), "4294967295");
    let names: std::collections::HashSet<String> = (0..200).map(backup_suffix).collect();
    assert_eq!(names.len(), 200);
}

#[test]
fn legacy_documents() {
    assert_eq!(legacy_source(OmpDocument::Models, true), Ok("models.json"));
    assert_eq!(legacy_source(OmpDocument::Config, false), Ok("settings.json"));
    assert_eq!(
        legacy_source(OmpDocument::Config, true),
        Err(ConfigError::LegacyDatabase)
    );
    assert_eq!(OmpDocument::Config.stem(), "config");
}
