//! JSON and YAML text read into, and written from, the library's `Json`
//! documents by serde_json and serde_yaml.
use vstd::prelude::*;
use crate::json::{json_views, Json, JsonView};
use serde_json::Value as JsonValue;
use serde_yaml::Value as YamlValue;

verus! {

/// A document parsed by serde_json.
#[verifier::external_type_specification]
#[verifier::external_body]
pub struct ExSerdeJsonValue(serde_json::Value);

/// A document parsed by serde_yaml.
#[verifier::external_type_specification]
#[verifier::external_body]
pub struct ExSerdeYamlValue(serde_yaml::Value);

/// The document that serde_json reads from `text` as a
/// `serde_json::Value`; `None` where it reports an error.
pub uninterp spec fn json_document(text: Seq<char>) -> Option<JsonView>;

/// The document serde_json reads from an optional text (none without one).
pub open spec fn text_document(t: Option<&str>) -> Option<JsonView> {
    match t {
        Some(x) => json_document(x@),
        None => None,
    }
}

/// The document that serde_yaml reads from `text` as a
/// `serde_yaml::Value`; `None` where it reports an error.
pub uninterp spec fn yaml_document(text: Seq<char>) -> Option<JsonView>;

/// The document that serde_yaml reads from `text` as a
/// `serde_json::Value`; `None` where it reports an error.
pub uninterp spec fn yaml_json_document(text: Seq<char>) -> Option<JsonView>;

/// The text that `serde_json::to_string_pretty` writes of an array of
/// values.
pub uninterp spec fn json_pretty(items: Seq<JsonView>) -> Seq<char>;

/// A number read by serde_json.
#[verifier::external_type_specification]
#[verifier::external_body]
pub struct ExSerdeJsonNumber(serde_json::Number);

/// A number read by serde_yaml.
#[verifier::external_type_specification]
#[verifier::external_body]
pub struct ExSerdeYamlNumber(serde_yaml::Number);

/// A serde_json number as a library document: `UInt` where it is a `u64`,
/// else `Int` where it is an `i64`, else `Float` with its decimal text.
#[verifier::external_body]
fn json_of_number(n: &serde_json::Number) -> Json {
    match (n.as_u64(), n.as_i64()) {
        (Some(u), _) => Json::UInt(u),
        (None, Some(i)) => Json::Int(i),
        (None, None) => Json::Float(n.to_string()),
    }
}

/// A serde_json value as a library document, variant by variant; object
/// members keep serde_json's order. The conversion step of [`parse_json`].
#[verifier::external_body]
fn json_of_value(v: &JsonValue) -> Json {
    match v {
        JsonValue::Null => Json::Null,
        JsonValue::Bool(b) => Json::Bool(*b),
        JsonValue::Number(n) => json_of_number(n),
        JsonValue::String(s) => Json::Str(s.clone()),
        JsonValue::Array(a) => Json::Array(a.iter().map(json_of_value).collect()),
        JsonValue::Object(m) => Json::Object(m.iter().map(|(k, x)| (k.clone(), json_of_value(x))).collect()),
    }
}

/// A library document as a serde_json value, variant by variant: `Float`
/// text becomes the number serde_json reads from it (null where it reads
/// none), and object members are collected into a `serde_json::Map` (where
/// a key repeats, the map keeps its last value). The conversion step of
/// [`pretty_json_array`].
#[verifier::external_body]
fn value_of_json(j: &Json) -> JsonValue {
    match j {
        Json::Null => JsonValue::Null,
        Json::Bool(b) => JsonValue::Bool(*b),
        Json::UInt(u) => JsonValue::from(*u),
        Json::Int(i) => JsonValue::from(*i),
        Json::Float(t) => t.parse::<serde_json::Number>().map(JsonValue::Number).unwrap_or(JsonValue::Null),
        Json::Str(s) => JsonValue::String(s.clone()),
        Json::Array(a) => JsonValue::Array(a.iter().map(value_of_json).collect()),
        Json::Object(m) => JsonValue::Object(m.iter().map(|(k, x)| (k.clone(), value_of_json(x))).collect()),
    }
}

/// A serde_yaml number as a library document, as for JSON numbers.
#[verifier::external_body]
fn json_of_yaml_number(n: &serde_yaml::Number) -> Json {
    match (n.as_u64(), n.as_i64()) {
        (Some(u), _) => Json::UInt(u),
        (None, Some(i)) => Json::Int(i),
        (None, None) => Json::Float(n.to_string()),
    }
}

/// A serde_yaml value as a library document, variant by variant: a
/// mapping key by [`yaml_key`], and a tagged value as the value it tags.
/// The conversion step of [`parse_yaml`].
#[verifier::external_body]
fn json_of_yaml(v: &YamlValue) -> Json {
    match v {
        YamlValue::Null => Json::Null,
        YamlValue::Bool(b) => Json::Bool(*b),
        YamlValue::Number(n) => json_of_yaml_number(n),
        YamlValue::String(s) => Json::Str(s.clone()),
        YamlValue::Sequence(a) => Json::Array(a.iter().map(json_of_yaml).collect()),
        YamlValue::Mapping(m) => Json::Object(m.iter().map(|(k, x)| (yaml_key(k), json_of_yaml(x))).collect()),
        YamlValue::Tagged(t) => json_of_yaml(&t.value),
    }
}

/// A YAML mapping key as text: a string as it is, any other value as the
/// text `serde_yaml::to_string` writes of it, trimmed. The key step of
/// [`json_of_yaml`].
#[verifier::external_body]
fn yaml_key(k: &YamlValue) -> String {
    match k {
        YamlValue::String(s) => s.clone(),
        other => serde_yaml::to_string(other).unwrap_or_default().trim().to_string(),
    }
}

/// `serde_json::from_str` of `text` as a `serde_json::Value`, as a library
/// document. The contract names the document and says that nothing comes
/// back exactly where serde_json reports an error (malformed text, or
/// nesting deeper than its limit); what the document holds is left to the
/// name.
#[verifier::external_body]
pub(crate) fn parse_json(text: &str) -> (r: Option<Json>)
    ensures
        match r {
            Some(j) => json_document(text@) == Some(j@),
            None => json_document(text@) is None,
        },
{
    match serde_json::from_str::<JsonValue>(text) {
        Ok(v) => Some(json_of_value(&v)),
        Err(_) => None,
    }
}

/// `serde_yaml::from_str` of `text` as a `serde_yaml::Value`, as a library
/// document. The contract names the document and says that nothing comes
/// back exactly where serde_yaml reports an error; what the document holds
/// is left to the name.
#[verifier::external_body]
pub(crate) fn parse_yaml(text: &str) -> (r: Option<Json>)
    ensures
        match r {
            Some(j) => yaml_document(text@) == Some(j@),
            None => yaml_document(text@) is None,
        },
{
    match serde_yaml::from_str::<YamlValue>(text) {
        Ok(v) => Some(json_of_yaml(&v)),
        Err(_) => None,
    }
}

/// `serde_yaml::from_str` of `text` as a `serde_json::Value`, as a library
/// document. The contract names the document and says that nothing comes
/// back exactly where serde_yaml reports an error (among them YAML that
/// no JSON value can hold); what the document holds is left to the name.
#[verifier::external_body]
pub(crate) fn parse_yaml_as_json(text: &str) -> (r: Option<Json>)
    ensures
        match r {
            Some(j) => yaml_json_document(text@) == Some(j@),
            None => yaml_json_document(text@) is None,
        },
{
    match serde_yaml::from_str::<JsonValue>(text) {
        Ok(v) => Some(json_of_value(&v)),
        Err(_) => None,
    }
}

/// `serde_json::to_string_pretty` of the values as a JSON array. Writing a
/// `serde_json::Value` into memory does not fail; the contract names the
/// text, and how it is laid out is left to the name.
#[verifier::external_body]
pub(crate) fn pretty_json_array(items: &Vec<Json>) -> (r: String)
    ensures
        r@ == json_pretty(json_views(items@)),
{
    let v = JsonValue::Array(items.iter().map(value_of_json).collect());
    serde_json::to_string_pretty(&v).unwrap_or_default()
}

} // verus!
