//! The trusted boundary to the underlying JSON parser.
//!
//! Parsing text into a document tree is the one step of the
//! schema-validated reader done by an outside parser.  Its result is named
//! by `json_parse`: a function of the text alone, so every caller's
//! contract can speak of "what this text parses to" exactly.

use vstd::prelude::*;

use crate::json::Json;

verus! {

/// A syntax failure from the JSON parser: the line and column (1-based) of
/// the first offending token, and the parser's message.
pub struct JsonSyntaxError {
    pub line: usize,
    pub column: usize,
    pub msg: String,
}

/// What the underlying JSON parser returns for a given text.  Parsing is a
/// deterministic function of the text alone.
pub uninterp spec fn json_parse(text: Seq<char>) -> Result<Json, JsonSyntaxError>;

/// Relies on `serde_json::from_str::<serde_json::Value>`: it parses the
/// text into a document tree, or fails with `serde_json::Error`, whose
/// `line` and `column` give the position of the first offending token; the
/// result is a function of the text alone.
#[verifier::external_body]
pub fn parse_json_text(text: &str) -> (r: Result<Json, JsonSyntaxError>)
    ensures
        r == json_parse(text@),
{
    match serde_json::from_str::<serde_json::Value>(text) {
        Ok(v) => Ok(value_of(&v)),
        Err(e) => Err(
            JsonSyntaxError { line: e.line(), column: e.column(), msg: e.to_string() },
        ),
    }
}

/// Relies on `serde_json::Value`: carries each of its variants over into
/// the library's document model, one arm per variant; a number keeps its
/// value exactly when it is an unsigned integer, which is all the schemas
/// accept.
#[verifier::external_body]
fn value_of(v: &serde_json::Value) -> Json {
    match v {
        serde_json::Value::Null => Json::Null,
        serde_json::Value::Bool(b) => Json::Bool(*b),
        serde_json::Value::Number(n) => match n.as_u64() {
            Some(u) => Json::Nat(u),
            None => Json::OtherNum,
        },
        serde_json::Value::String(s) => Json::Str(s.clone()),
        serde_json::Value::Array(a) => Json::Arr(a.iter().map(value_of).collect()),
        serde_json::Value::Object(m) => Json::Obj(
            m.iter().map(|(k, x)| (k.clone(), value_of(x))).collect(),
        ),
    }
}

/// `serde_json`'s document type, declared so that `value_of` can take it.
#[verifier::external_type_specification]
#[verifier::external_body]
pub struct ExValue(serde_json::Value);

} // verus!
