//! Reading JSON text into values and writing values as text, both done by
//! `serde_json`. What that crate computes is not proved here; it is given a
//! name, and the engine's contracts speak of those names.

use vstd::prelude::*;
use crate::errors::AppError;
use crate::json::{Json, JsonNumber, JsonV};

verus! {

/// `serde_json::Value`, opaque to the verifier: it only passes between the
/// parser, the printer and the functions that copy it.
#[verifier::external_type_specification]
#[verifier::external_body]
pub struct ExValue(serde_json::Value);

/// `serde_json::Error`, opaque to the verifier: only its message is taken.
#[verifier::external_type_specification]
#[verifier::external_body]
pub struct ExError(serde_json::Error);

/// The value that `serde_json::from_str` reads from a text, `None` where it
/// rejects the text.
pub uninterp spec fn parsed(text: Seq<char>) -> Option<JsonV>;

/// The text that `serde_json::to_string_pretty` writes for a value, `None`
/// where it fails.
pub uninterp spec fn printed(value: JsonV) -> Option<Seq<char>>;

/// Tells the three kinds of `serde_json::Number` apart with `as_u64` and
/// `as_i64`: a whole number from zero up, a whole number below zero, and any
/// other number, which is kept as it is. Nothing is claimed of the result.
#[verifier::external_body]
fn number_from(n: &serde_json::Number) -> JsonNumber {
    match (n.as_u64(), n.as_i64()) {
        (Some(u), _) => JsonNumber::Unsigned(u),
        (None, Some(i)) => JsonNumber::Negative(i),
        (None, None) => JsonNumber::Real(n.clone()),
    }
}

/// Builds the `serde_json::Number` for a number with `Number::from`. Nothing
/// is claimed of the result.
#[verifier::external_body]
fn number_into(n: &JsonNumber) -> serde_json::Number {
    match n {
        JsonNumber::Unsigned(u) => serde_json::Number::from(*u),
        JsonNumber::Negative(i) => serde_json::Number::from(*i),
        JsonNumber::Real(r) => r.clone(),
    }
}

/// Copies a `serde_json::Value` into a [`Json`], variant by variant; the
/// members of an object come in the order in which its map hands them out.
/// Nothing is claimed of the result.
#[verifier::external_body]
fn json_from(value: &serde_json::Value) -> Json {
    match value {
        serde_json::Value::Null => Json::Null,
        serde_json::Value::Bool(b) => Json::Bool(*b),
        serde_json::Value::Number(n) => Json::Number(number_from(n)),
        serde_json::Value::String(s) => Json::String(s.clone()),
        serde_json::Value::Array(a) => Json::Array(a.iter().map(json_from).collect()),
        serde_json::Value::Object(o) => Json::Object(
            o.iter().map(|(k, v)| (k.clone(), json_from(v))).collect(),
        ),
    }
}

/// Copies a [`Json`] into a `serde_json::Value`, variant by variant; the
/// members of an object are collected into its map. Nothing is claimed of the
/// result.
#[verifier::external_body]
fn json_into(value: &Json) -> serde_json::Value {
    match value {
        Json::Null => serde_json::Value::Null,
        Json::Bool(b) => serde_json::Value::Bool(*b),
        Json::Number(n) => serde_json::Value::Number(number_into(n)),
        Json::String(s) => serde_json::Value::String(s.clone()),
        Json::Array(a) => serde_json::Value::Array(a.iter().map(json_into).collect()),
        Json::Object(o) => serde_json::Value::Object(
            o.iter().map(|(k, v)| (k.clone(), json_into(v))).collect(),
        ),
    }
}

/// Calls `serde_json::from_str` for a `serde_json::Value`. The contract only
/// names the outcome: the same text always reads as the same value, or is
/// always rejected.
#[verifier::external_body]
fn read_text(text: &str) -> (r: Result<Json, serde_json::Error>)
    ensures
        match r {
            Ok(value) => parsed(text@) == Some(value@),
            Err(_) => parsed(text@) is None,
        },
{
    match serde_json::from_str::<serde_json::Value>(text) {
        Ok(value) => Ok(json_from(&value)),
        Err(e) => Err(e),
    }
}

/// Calls `serde_json::to_string_pretty` on the value. The contract only names
/// the outcome: the same value is always written as the same text.
#[verifier::external_body]
fn write_text(value: &Json) -> (r: Result<String, serde_json::Error>)
    ensures
        match r {
            Ok(text) => printed(value@) == Some(text@),
            Err(_) => printed(value@) is None,
        },
{
    serde_json::to_string_pretty(&json_into(value))
}

/// The message of a `serde_json::Error`, as its `Display` gives it. Nothing
/// is claimed of the text.
#[verifier::external_body]
fn error_text(e: &serde_json::Error) -> String {
    e.to_string()
}

/// Reads a JSON text.
///
/// Succeeds exactly on the texts that the parser accepts, with the value it
/// reads; every other text is a [`AppError::JsonParse`].
pub fn convert_string_to_json(json_string: &str) -> (r: Result<Json, AppError>)
    ensures
        match r {
            Ok(value) => parsed(json_string@) == Some(value@),
            Err(e) => parsed(json_string@) is None && e is JsonParse,
        },
{
    match read_text(json_string) {
        Ok(value) => Ok(value),
        Err(e) => Err(AppError::JsonParse(error_text(&e))),
    }
}

/// Writes a value as pretty-printed JSON text.
///
/// Succeeds exactly on the values that the printer accepts, with the text it
/// writes; for any other value the result is a [`AppError::JsonParse`].
pub fn convert_json_to_string(value: &Json) -> (r: Result<String, AppError>)
    ensures
        match r {
            Ok(text) => printed(value@) == Some(text@),
            Err(e) => printed(value@) is None && e is JsonParse,
        },
{
    match write_text(value) {
        Ok(text) => Ok(text),
        Err(e) => Err(AppError::JsonParse(error_text(&e))),
    }
}

} // verus!
