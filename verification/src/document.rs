//! JSON documents: values read from text.
use crate::json::{Json, JsonView, Number};
use crate::text::option_view;
use serde_json::Value;
use vstd::prelude::*;

verus! {

/// `serde_json::Value`, a JSON value as `serde_json` holds it.
#[verifier::external_type_specification]
#[verifier::external_body]
pub struct ExValue(serde_json::Value);

/// What a `serde_json::Value` holds.
pub uninterp spec fn content(v: Value) -> JsonView;

/// The JSON value that `serde_json` reads from a text; nothing where the text is not JSON.
pub uninterp spec fn parsed(text: Seq<char>) -> Option<JsonView>;

/// `serde_json::from_str` into a `serde_json::Value`. Which texts are JSON, and what they stand
/// for, is only named here.
#[verifier::external_body]
fn read_value(text: &str) -> (r: Option<Value>)
    ensures
        match r {
            Some(v) => parsed(text@) == Some(content(v)),
            None => parsed(text@) is None,
        },
{
    serde_json::from_str::<Value>(text).ok()
}

/// The JSON value that `serde_json` reads from bytes; nothing where the bytes are not JSON.
pub uninterp spec fn parsed_bytes(b: Seq<u8>) -> Option<JsonView>;

/// `serde_json::from_slice` into a `serde_json::Value`. Which bytes are JSON, and what they
/// stand for, is only named here.
#[verifier::external_body]
fn read_value_bytes(b: &[u8]) -> (r: Option<Value>)
    ensures
        match r {
            Some(v) => parsed_bytes(b@) == Some(content(v)),
            None => parsed_bytes(b@) is None,
        },
{
    serde_json::from_slice::<Value>(b).ok()
}

/// A `serde_json::Value`, part by part: its variants, `Number::as_u64`, `as_i64` and `as_f64`,
/// and the entries of its arrays and maps in their order.
#[verifier::external_body]
fn json_of(v: Value) -> (r: Json)
    ensures
        r@ == content(v),
{
    match v {
        Value::Null => Json::Null,
        Value::Bool(b) => Json::Bool(b),
        Value::Number(n) => Json::Number(match (n.as_u64(), n.as_i64()) {
            (Some(u), _) => Number::PosInt(u),
            (None, Some(i)) => Number::NegInt(i),
            (None, None) => Number::Float(n.as_f64().unwrap_or_default().to_bits()),
        }),
        Value::String(s) => Json::Str(s),
        Value::Array(a) => Json::Array(a.into_iter().map(json_of).collect()),
        Value::Object(o) => Json::Object(o.into_iter().map(|(k, v)| (k, json_of(v))).collect()),
    }
}

/// The JSON value of a text, where it is JSON.
pub fn parse(text: &str) -> (r: Option<Json>)
    ensures
        option_view(r) == parsed(text@),
{
    match read_value(text) {
        Some(v) => Some(json_of(v)),
        None => None,
    }
}

/// The JSON value of some bytes, where they are JSON.
pub fn parse_bytes(b: &[u8]) -> (r: Option<Json>)
    ensures
        option_view(r) == parsed_bytes(b@),
{
    match read_value_bytes(b) {
        Some(v) => Some(json_of(v)),
        None => None,
    }
}

} // verus!
