//! What the crate has from `serde_json`: its values and its error, which are
//! carried and never looked into, and the texts that it writes and reads.
//! Nothing in this file is proved; its contracts say what is taken on trust.

use vstd::prelude::*;

verus! {

/// Trusted: the error type of `serde_json`. Nothing is known of a value of
/// it.
#[verifier::external_type_specification]
#[verifier::external_body]
pub struct ExJsonError(serde_json::Error);

/// Trusted: the JSON value of `serde_json`. Nothing is known of what a value
/// of it holds.
#[verifier::external_type_specification]
#[verifier::external_body]
pub struct ExJsonValue(serde_json::Value);

/// What a JSON value holds, as the JSON text that `serde_json::to_string`
/// gives for it.
pub uninterp spec fn json_text(value: serde_json::Value) -> Seq<char>;

/// Whether `serde_json::to_string` gives a text for the JSON value.
pub uninterp spec fn json_writes(value: serde_json::Value) -> bool;

/// The text that `serde_json::to_string_pretty` gives for an array of
/// objects, each object given as its keys and string values in the order in
/// which they are put into it.
pub uninterp spec fn json_pretty_text(objects: Seq<Seq<(Seq<char>, Seq<char>)>>) -> Seq<char>;

/// The JSON text that `serde_json::to_string` gives for a list of strings.
pub uninterp spec fn json_list_text(items: Seq<Seq<char>>) -> Seq<char>;

/// The list of strings that `serde_json::from_str` reads from a JSON text, if
/// the text is one.
pub uninterp spec fn json_string_list(text: Seq<char>) -> Option<Seq<Seq<char>>>;

/// Trusted: the clone of a `serde_json::Value` holds what the value holds.
pub assume_specification[ <serde_json::Value as Clone>::clone ](
    value: &serde_json::Value,
) -> (copy: serde_json::Value)
    ensures
        json_text(copy) == json_text(*value),
;

/// Trusted: gives `serde_json::Value::Null`, whose JSON text is `null`.
#[verifier::external_body]
pub(crate) fn null_value() -> (value: serde_json::Value)
    ensures
        json_text(value) == "null"@,
{
    serde_json::Value::Null
}

/// Trusted: calls `serde_json::to_string_pretty` on the array of the objects
/// that `objects` describes: a `serde_json::Map` is collected from the pairs
/// of each element, with each value a JSON string. The call succeeds: the
/// serializer fails only where its writer does or where a key is no string,
/// and here it writes into a vector and every key is a string. Its text
/// depends on `objects` alone and is called [`json_pretty_text`].
#[verifier::external_body]
pub(crate) fn json_pretty(objects: &Vec<Vec<(String, String)>>) -> (outcome: Result<
    String,
    serde_json::Error,
>)
    ensures
        outcome is Ok,
        outcome matches Ok(text) ==> text@ == json_pretty_text(objects.deep_view()),
{
    let values: Vec<serde_json::Value> = objects.iter().map(
        |pairs|
            serde_json::Value::Object(
                pairs.iter().map(
                    |pair| (pair.0.clone(), serde_json::Value::String(pair.1.clone())),
                ).collect(),
            ),
    ).collect();
    serde_json::to_string_pretty(&values)
}

/// Trusted: calls `serde_json::to_string` on a list of strings. The call
/// succeeds: the serializer fails only where its writer does or where a key
/// of a map is no string, and here it writes into a vector and there is no
/// map. Its text depends on the list alone and is called
/// [`json_list_text`].
#[verifier::external_body]
pub(crate) fn encode_list(items: &Vec<String>) -> (outcome: Result<String, serde_json::Error>)
    ensures
        outcome is Ok,
        outcome matches Ok(text) ==> text@ == json_list_text(items.deep_view()),
{
    serde_json::to_string(items)
}

/// Trusted: calls `serde_json::to_string` on a JSON value. Whether the call
/// succeeds depends on the value alone and is called [`json_writes`]; where
/// it does, its text is what the value holds, [`json_text`]. That it
/// succeeds is not claimed.
#[verifier::external_body]
pub(crate) fn encode_value(value: &serde_json::Value) -> (outcome: Result<String, serde_json::Error>)
    ensures
        outcome is Ok <==> json_writes(*value),
        outcome matches Ok(text) ==> text@ == json_text(*value),
{
    serde_json::to_string(value)
}

/// Trusted: calls `serde_json::from_str` for a list of strings and drops the
/// error. What it reads depends on the text alone and is called
/// [`json_string_list`].
#[verifier::external_body]
pub(crate) fn decode_list(text: &str) -> (items: Option<Vec<String>>)
    ensures
        items.deep_view() == json_string_list(text@),
{
    serde_json::from_str::<Vec<String>>(text).ok()
}

} // verus!
