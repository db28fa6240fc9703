use pi_omp_setup::client_files::{
    backup_step, omp_source, read_document, staged_bytes, BackupStep, MAX_BACKUPS,
};
use pi_omp_setup::config::{parse_config_bytes, ConfigError};
use pi_omp_setup::documents::OmpDocument;
use pi_omp_setup::json::{duplicate, json_equal, Json};

fn object_with(key: &str, value: Json) -> Json {
    let mut j = Json::new_object();
    j.set(key, value);
    j
}

#[test]
fn missing_files_read_as_empty_objects() {
    let j = read_document(None, false).unwrap();
    assert!(json_equal(&j, &Json::new_object()));
    let j = read_document(None, true).unwrap();
    assert!(json_equal(&j, &Json::new_object()));
}

#[test]
fn malformed_and_non_object_documents_are_refused() {
    assert_eq!(
        read_document(Some(b"not json"), false).err(),
        Some(ConfigError::MalformedJson)
    );
    assert_eq!(
        read_document(Some(b"null"), false).err(),
        Some(ConfigError::DocumentNotObject)
    );
    assert_eq!(
        read_document(Some(br#"{"providers":[]}"#), false)
            .map(|j| j.is_object())
            .ok(),
        Some(true)
    );
    assert_eq!(
        read_document(Some(b"modelRoles: [\n"), true).err(),
        Some(ConfigError::MalformedYaml)
    );
    assert_eq!(
        read_document(Some(b"- a\n- b\n"), true).err(),
        Some(ConfigError::DocumentNotObject)
    );
    assert_eq!(
        ConfigError::MalformedYaml.message(),
        "Existing YAML configuration is malformed"
    );
}

#[test]
fn documents_are_read_with_sorted_members() {
    let j = read_document(Some(br#"{"theme":"dark","custom":{"a":1}}"#), false).unwrap();
    let mut expected = Json::new_object();
    expected.set("custom", object_with("a", Json::Number("1".into())));
    expected.set("theme", Json::Str("dark".into()));
    assert!(json_equal(&j, &expected));
    let y = read_document(Some(b"modelRoles:\n  smol: existing/model\ntheme:\n  dark: custom\n"), true)
        .unwrap();
    let mut expected = Json::new_object();
    expected.set("modelRoles", object_with("smol", Json::Str("existing/model".into())));
    expected.set("theme", object_with("dark", Json::Str("custom".into())));
    assert!(json_equal(&y, &expected));
}

#[test]
fn staged_json_is_pretty_with_a_final_line_feed() {
    let doc = object_with("a", Json::Number("1".into()));
    let bytes = staged_bytes(&doc, false).unwrap();
    assert_eq!(bytes, b"{\n  \"a\": 1\n}\n");
    let back = read_document(Some(&bytes), false).unwrap();
    assert!(json_equal(&back, &doc));
}

#[test]
fn staged_yaml_reads_back_as_the_same_document() {
    let mut doc = Json::new_object();
    doc.set("modelRoles", object_with("default", Json::Str("hotschmoe-local/hotschmoe-dd".into())));
    doc.set("contextWindow", Json::Number("200000".into()));
    let bytes = staged_bytes(&doc, true).unwrap();
    let text = String::from_utf8(bytes.clone()).unwrap();
    assert!(text.contains("default: hotschmoe-local/hotschmoe-dd"));
    let back = read_document(Some(&bytes), true).unwrap();
    assert!(json_equal(&back, &doc));
    let copy = duplicate(&doc);
    assert!(json_equal(&copy, &doc));
}

#[test]
fn omp_documents_prefer_yml_then_yaml_then_the_older_json() {
    let s = omp_source(OmpDocument::Models, true, true, true).unwrap();
    assert_eq!((s.target.as_str(), s.source.as_str(), s.yaml), ("models.yml", "models.yml", true));
    let s = omp_source(OmpDocument::Config, false, true, true).unwrap();
    assert_eq!((s.target.as_str(), s.source.as_str(), s.yaml), ("config.yaml", "config.yaml", true));
    let s = omp_source(OmpDocument::Config, false, false, false).unwrap();
    assert_eq!((s.target.as_str(), s.source.as_str(), s.yaml), ("config.yml", "settings.json", false));
    let s = omp_source(OmpDocument::Models, false, false, true).unwrap();
    assert_eq!((s.target.as_str(), s.source.as_str(), s.yaml), ("models.yml", "models.json", false));
    assert_eq!(
        omp_source(OmpDocument::Config, false, false, true).err(),
        Some(ConfigError::LegacyDatabase)
    );
}

#[test]
fn backup_search_takes_the_first_free_name() {
    assert_eq!(backup_step(0, false), BackupStep::Write(0));
    assert_eq!(backup_step(0, true), BackupStep::Try(1));
    assert_eq!(backup_step(7, false), BackupStep::Write(7));
    assert_eq!(backup_step(MAX_BACKUPS - 1, true), BackupStep::Exhausted);
    // Names 0, 1 and 2 taken: the search writes number 3.
    let taken = [true, true, true, false];
    let mut n = 0;
    let chosen = loop {
        match backup_step(n, taken[n as usize]) {
            BackupStep::Write(m) => break m,
            BackupStep::Try(m) => n = m,
            BackupStep::Exhausted => panic!("names left"),
        }
    };
    assert_eq!(chosen, 3);
    assert_eq!(
        ConfigError::TooManyBackups.message(),
        "Too many existing configuration backups"
    );
}

#[test]
fn configurations_are_read_from_their_text() {
    let c = parse_config_bytes(br#"{"endpoint":"https://e.invalid","api_key":"k"}"#).unwrap();
    assert_eq!(c.model_id, "hotschmoe-dd");
    assert_eq!(
        parse_config_bytes(b"not json").err(),
        Some(ConfigError::NotAModelConfiguration)
    );
    assert_eq!(
        parse_config_bytes(br#"{"endpoint":"http://e.invalid","api_key":"k"}"#).err(),
        Some(ConfigError::EndpointNotAllowed)
    );
}
