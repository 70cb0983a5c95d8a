//! JSON text: parsing and printing through `serde_json`.
use vstd::prelude::*;

use crate::json::{json_wf, Json, JsonNumber, SpecJson};

verus! {

#[verifier::external_type_specification]
#[verifier::external_body]
pub struct ExJsonValue(serde_json::Value);

/// What `serde_json::from_str` makes of `text`: the value, or its error message.
pub uninterp spec fn json_parse(text: Seq<char>) -> Result<SpecJson, Seq<char>>;

/// What `serde_json::from_slice` makes of `bytes`: the value, or its error message.
pub uninterp spec fn json_parse_bytes(bytes: Seq<u8>) -> Result<SpecJson, Seq<char>>;

/// The compact JSON text `serde_json` writes for a value, object entries in their order.
pub uninterp spec fn json_text(j: SpecJson) -> Seq<char>;

/// Moves a `serde_json::Value` into the library's value, one variant for one, keeping the
/// order of object entries.
#[verifier::external_body]
fn from_serde(v: serde_json::Value) -> Json {
    match v {
        serde_json::Value::Null => Json::Null,
        serde_json::Value::Bool(b) => Json::Bool(b),
        serde_json::Value::Number(n) => Json::Number(JsonNumber { as_i64: n.as_i64(), text: n.to_string() }),
        serde_json::Value::String(s) => Json::Str(s),
        serde_json::Value::Array(items) => Json::List(items.into_iter().map(from_serde).collect()),
        serde_json::Value::Object(map) => Json::Object(map.into_iter().map(|(k, v)| (k, from_serde(v))).collect()),
    }
}

/// Moves the library's value into a `serde_json::Value`, one variant for one; a number is
/// read back from its text.
#[verifier::external_body]
fn to_serde(j: &Json) -> serde_json::Value {
    match j {
        Json::Null => serde_json::Value::Null,
        Json::Bool(b) => serde_json::Value::Bool(*b),
        Json::Number(n) => n.text.parse::<serde_json::Number>().map(serde_json::Value::Number).unwrap_or(serde_json::Value::Null),
        Json::Str(s) => serde_json::Value::String(s.clone()),
        Json::List(items) => serde_json::Value::Array(items.iter().map(to_serde).collect()),
        Json::Object(entries) => serde_json::Value::Object(entries.iter().map(|(k, v)| (k.clone(), to_serde(v))).collect()),
    }
}

/// Parses one JSON text with `serde_json::from_str`. The outcome is a function of the text
/// alone (`json_parse`); every object of a parsed value has distinct keys, as `serde_json`'s
/// map keeps one entry per key.
#[verifier::external_body]
pub(crate) fn parse_json(text: &str) -> (r: Result<Json, String>)
    ensures
        match json_parse(text@) {
            Ok(j) => r matches Ok(v) && v@ == j,
            Err(m) => r matches Err(e) && e@ == m,
        },
        r matches Ok(v) ==> json_wf(v@),
{
    match serde_json::from_str::<serde_json::Value>(text) {
        Ok(v) => Ok(from_serde(v)),
        Err(e) => Err(e.to_string()),
    }
}

/// Parses one JSON text from bytes with `serde_json::from_slice` (`json_parse_bytes`); as with
/// `parse_json`, every object of the value has distinct keys.
#[verifier::external_body]
pub(crate) fn parse_json_bytes(bytes: &[u8]) -> (r: Result<Json, String>)
    ensures
        match json_parse_bytes(bytes@) {
            Ok(j) => r matches Ok(v) && v@ == j,
            Err(m) => r matches Err(e) && e@ == m,
        },
        r matches Ok(v) ==> json_wf(v@),
{
    match serde_json::from_slice::<serde_json::Value>(bytes) {
        Ok(v) => Ok(from_serde(v)),
        Err(e) => Err(e.to_string()),
    }
}

/// Writes a value as compact JSON text with `serde_json::to_string`; the text is a function
/// of the value alone (`json_text`).
#[verifier::external_body]
pub(crate) fn print_json(j: &Json) -> (r: String)
    ensures
        r@ == json_text(j@),
{
    serde_json::to_string(&to_serde(j)).unwrap_or_default()
}

} // verus!
