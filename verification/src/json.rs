//! The library's model of a decoded JSON document, and the one trusted
//! entry point that produces it from text.
//!
//! The daemon's payloads hold strings, unsigned integers, arrays and
//! objects; a number outside `u64` is noted as present but carries no
//! payload, since no record the client reads contains one.

use vstd::prelude::*;

verus! {

/// One decoded JSON value.
#[derive(Debug)]
pub enum Json {
    Null,
    Bool(bool),
    UInt(u64),
    OtherNum,
    Str(String),
    Arr(Vec<Json>),
    Obj(Vec<(String, Json)>),
}

#[verifier::external_type_specification]
#[verifier::external_body]
pub struct ExValue(serde_json::Value);

/// The JSON value read from `s`, or `None` when `s` is not one
/// well-formed JSON document. The text alone determines the result.
pub uninterp spec fn json_of(s: Seq<char>) -> Option<Json>;

/// Relies on serde_json::from_str::<serde_json::Value>: reads one JSON
/// document from the text, `Err` exactly when the text is malformed.
#[verifier::external_body]
pub fn parse_json(s: &str) -> (r: Option<Json>)
    ensures
        r == json_of(s@),
{
    match serde_json::from_str::<serde_json::Value>(s) {
        Ok(v) => Some(convert_json(v)),
        Err(_) => None,
    }
}

/// Relies on serde_json::Value: each variant is moved across one-for-one
/// into the library's `Json`; nested values are carried over by the same
/// conversion.
#[verifier::external_body]
fn convert_json(v: serde_json::Value) -> Json {
    match v {
        serde_json::Value::Null => Json::Null,
        serde_json::Value::Bool(b) => Json::Bool(b),
        serde_json::Value::Number(n) => match n.as_u64() {
            Some(u) => Json::UInt(u),
            None => Json::OtherNum,
        },
        serde_json::Value::String(s) => Json::Str(s),
        serde_json::Value::Array(a) => Json::Arr(a.into_iter().map(convert_json).collect()),
        serde_json::Value::Object(m) => Json::Obj(
            m.into_iter().map(|(k, val)| (k, convert_json(val))).collect(),
        ),
    }
}

} // verus!
