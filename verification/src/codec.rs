//! JSON and YAML text of client documents, through `serde_json` and
//! `serde_yaml_ng`, as the library's `Json` model.
use vstd::prelude::*;
use crate::json::{Json, JsonV};

verus! {

#[verifier::external_type_specification]
#[verifier::external_body]
pub struct ExJsonValue(serde_json::Value);

pub open spec fn json_option_view(r: Option<Json>) -> Option<JsonV> {
    match r {
        Some(j) => Some(j@),
        None => None,
    }
}

pub open spec fn bytes_option_view(r: Option<Vec<u8>>) -> Option<Seq<u8>> {
    match r {
        Some(b) => Some(b@),
        None => None,
    }
}

/// Rebuilds a `serde_json::Value` as a `Json`, value for value. Without the
/// `preserve_order` feature a `serde_json::Map` is a `BTreeMap<String, _>`,
/// whose members come out in key order. Nothing is claimed of the result:
/// the callers' contracts speak of the whole parse.
#[verifier::external_body]
fn json_from_value(v: serde_json::Value) -> Json {
    match v {
        serde_json::Value::Null => Json::Null,
        serde_json::Value::Bool(b) => Json::Bool(b),
        serde_json::Value::Number(n) => Json::Number(n.to_string()),
        serde_json::Value::String(s) => Json::Str(s),
        serde_json::Value::Array(a) => Json::Array(a.into_iter().map(json_from_value).collect()),
        serde_json::Value::Object(m) => Json::Object(
            m.into_iter().map(|(k, x)| (k, json_from_value(x))).collect(),
        ),
    }
}

/// Rebuilds a `Json` as a `serde_json::Value`, value for value; a number's
/// text is read back with `serde_json::from_str` (text that is not a number
/// becomes `null`). Nothing is claimed of the result: the callers' contracts
/// speak of the whole serialization.
#[verifier::external_body]
fn value_from_json(j: &Json) -> serde_json::Value {
    match j {
        Json::Null => serde_json::Value::Null,
        Json::Bool(b) => serde_json::Value::Bool(*b),
        Json::Number(t) => serde_json::from_str(t).unwrap_or(serde_json::Value::Null),
        Json::Str(s) => serde_json::Value::String(s.clone()),
        Json::Array(a) => serde_json::Value::Array(a.iter().map(value_from_json).collect()),
        Json::Object(m) => serde_json::Value::Object(
            m.iter().map(|(k, v)| (k.clone(), value_from_json(v))).collect(),
        ),
    }
}

/// The document that `serde_json::from_slice::<serde_json::Value>` reads
/// from `bytes`; `None` where it refuses them.
pub uninterp spec fn parsed_json(bytes: Seq<u8>) -> Option<JsonV>;

/// The document that `serde_yaml_ng::from_slice::<serde_json::Value>` reads
/// from `bytes`; `None` where it refuses them.
pub uninterp spec fn parsed_yaml(bytes: Seq<u8>) -> Option<JsonV>;

/// What `serde_json::to_vec_pretty` writes for a document.
pub uninterp spec fn json_pretty_text(doc: JsonV) -> Seq<u8>;

/// What `serde_yaml_ng::to_string` writes for a document, as UTF-8 bytes;
/// `None` where it fails.
pub uninterp spec fn yaml_text(doc: JsonV) -> Option<Seq<u8>>;

/// Calls `serde_json::from_slice::<serde_json::Value>` and rebuilds the
/// value as a `Json`. The contract claims that the result is the value of
/// the name `parsed_json`, and that its objects have their keys in order and
/// once each (a `BTreeMap`'s members).
#[verifier::external_body]
pub(crate) fn parse_json_bytes(bytes: &[u8]) -> (r: Option<Json>)
    ensures
        json_option_view(r) == parsed_json(bytes@),
        r matches Some(j) ==> j@.wf(),
{
    serde_json::from_slice::<serde_json::Value>(bytes).ok().map(json_from_value)
}

/// Calls `serde_yaml_ng::from_slice::<serde_json::Value>` and rebuilds the
/// value as a `Json`. The contract claims that the result is the value of
/// the name `parsed_yaml`, and that its objects have their keys in order and
/// once each.
#[verifier::external_body]
pub(crate) fn parse_yaml_bytes(bytes: &[u8]) -> (r: Option<Json>)
    ensures
        json_option_view(r) == parsed_yaml(bytes@),
        r matches Some(j) ==> j@.wf(),
{
    serde_yaml_ng::from_slice::<serde_json::Value>(bytes).ok().map(json_from_value)
}

/// Calls `serde_json::to_vec_pretty` on the document as a
/// `serde_json::Value`. The contract claims that it succeeds (the source
/// shows that a `Value`, whose map keys are strings, always serializes into
/// a `Vec`) and that the bytes are the value of the name `json_pretty_text`.
#[verifier::external_body]
pub(crate) fn json_pretty_bytes(doc: &Json) -> (r: Option<Vec<u8>>)
    ensures
        r is Some,
        r matches Some(b) ==> b@ == json_pretty_text(doc@),
{
    serde_json::to_vec_pretty(&value_from_json(doc)).ok()
}

/// Calls `serde_yaml_ng::to_string` on the document as a
/// `serde_json::Value`. The contract claims that the result, as bytes, is
/// the value of the name `yaml_text`.
#[verifier::external_body]
pub(crate) fn yaml_bytes(doc: &Json) -> (r: Option<Vec<u8>>)
    ensures
        bytes_option_view(r) == yaml_text(doc@),
{
    serde_yaml_ng::to_string(&value_from_json(doc)).ok().map(String::into_bytes)
}

} // verus!
