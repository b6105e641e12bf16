//! Reading JSON documents. The documents are parsed and taken apart by `serde_json`;
//! which members are read, and what is made of them, is decided by the callers.
//!
//! What `serde_json` finds in a document is a function of the document alone. It is
//! not described here but named, one name for each of its functions that is called,
//! so that the callers can say which members they read.

use crate::text::opt_text;
use vstd::prelude::*;

verus! {

/// A JSON value as `serde_json` holds it.
#[verifier::external_type_specification]
#[verifier::external_body]
pub struct ExJsonValue(serde_json::Value);

/// The value that a text denotes as a JSON document, as `serde_json::from_str` reads
/// it; `None` for a text that it rejects.
pub uninterp spec fn json_document(text: Seq<char>) -> Option<serde_json::Value>;

/// The members that `Value::get` finds in a JSON value, by key.
pub uninterp spec fn json_members(value: serde_json::Value) -> Map<Seq<char>, serde_json::Value>;

/// The text that `Value::as_str` finds in a JSON value, if it finds one.
pub uninterp spec fn json_text(value: serde_json::Value) -> Option<Seq<char>>;

/// The number that `Value::as_i64` finds in a JSON value, if it finds one.
pub uninterp spec fn json_signed(value: serde_json::Value) -> Option<i64>;

/// The number that `Value::as_u64` finds in a JSON value, if it finds one.
pub uninterp spec fn json_unsigned(value: serde_json::Value) -> Option<u64>;

/// The elements that `Value::as_array` finds in a JSON value, if it finds any.
pub uninterp spec fn json_elements(value: serde_json::Value) -> Option<Seq<serde_json::Value>>;

/// The text under `key` in a JSON value, where there is such a member and it is a
/// text.
pub open spec fn text_member(value: serde_json::Value, key: Seq<char>) -> Option<Seq<char>> {
    if json_members(value).contains_key(key) {
        json_text(json_members(value)[key])
    } else {
        None
    }
}

/// The signed integer under `key` in a JSON value, where there is such a member and
/// it is one.
pub open spec fn signed_member(value: serde_json::Value, key: Seq<char>) -> Option<i64> {
    if json_members(value).contains_key(key) {
        json_signed(json_members(value)[key])
    } else {
        None
    }
}

/// The unsigned integer under `key` in a JSON value, where there is such a member
/// and it is one.
pub open spec fn unsigned_member(value: serde_json::Value, key: Seq<char>) -> Option<u64> {
    if json_members(value).contains_key(key) {
        json_unsigned(json_members(value)[key])
    } else {
        None
    }
}

/// Parses a JSON document. Calls `serde_json::from_str` for a `Value`, whose result
/// depends on the text alone: the value is the one that `json_document` names, and
/// there is an error exactly where it names none.
#[verifier::external_body]
pub(crate) fn parse(text: &str) -> (r: Result<serde_json::Value, serde_json::Error>)
    ensures
        match r {
            Ok(value) => json_document(text@) == Some(value),
            Err(_) => json_document(text@) is None,
        },
{
    serde_json::from_str::<serde_json::Value>(text)
}

/// The member `key` of a JSON value. Calls `Value::get` with a text, which looks the
/// key up in an object and finds nothing in any other value: the member is the one
/// that `json_members` names under the key, and there is none exactly where it names
/// none.
#[verifier::external_body]
pub(crate) fn member<'a>(value: &'a serde_json::Value, key: &str) -> (r: Option<
    &'a serde_json::Value,
>)
    ensures
        match r {
            Some(found) => json_members(*value).contains_key(key@) && json_members(*value)[key@]
                == *found,
            None => !json_members(*value).contains_key(key@),
        },
{
    value.get(key)
}

/// The text of a JSON string. Calls `Value::as_str`, which gives the text of a
/// string and `None` for every other value: the text is the one that `json_text`
/// names.
#[verifier::external_body]
pub(crate) fn as_text(value: &serde_json::Value) -> (r: Option<String>)
    ensures
        opt_text(r) == json_text(*value),
{
    value.as_str().map(String::from)
}

/// The number that a JSON integer denotes, where it fits. Calls `Value::as_i64`: the
/// number is the one that `json_signed` names.
#[verifier::external_body]
pub(crate) fn as_signed(value: &serde_json::Value) -> (r: Option<i64>)
    ensures
        r == json_signed(*value),
{
    value.as_i64()
}

/// The number that a JSON integer denotes, where it is not negative and fits. Calls
/// `Value::as_u64`: the number is the one that `json_unsigned` names.
#[verifier::external_body]
pub(crate) fn as_unsigned(value: &serde_json::Value) -> (r: Option<u64>)
    ensures
        r == json_unsigned(*value),
{
    value.as_u64()
}

/// The elements of a JSON array. Calls `Value::as_array`, which gives the elements
/// of an array and `None` for every other value: the elements are those that
/// `json_elements` names.
#[verifier::external_body]
pub(crate) fn as_elements<'a>(value: &'a serde_json::Value) -> (r: Option<
    &'a Vec<serde_json::Value>,
>)
    ensures
        match r {
            Some(elements) => json_elements(*value) == Some(elements@),
            None => json_elements(*value) is None,
        },
{
    value.as_array()
}

/// The text under `key` in a JSON object, where there is one.
pub(crate) fn member_text(value: &serde_json::Value, key: &str) -> (r: Option<String>)
    ensures
        opt_text(r) == text_member(*value, key@),
{
    match member(value, key) {
        Some(v) => as_text(v),
        None => None,
    }
}

/// The signed integer under `key` in a JSON object, where there is one.
pub(crate) fn member_signed(value: &serde_json::Value, key: &str) -> (r: Option<i64>)
    ensures
        r == signed_member(*value, key@),
{
    match member(value, key) {
        Some(v) => as_signed(v),
        None => None,
    }
}

/// The unsigned integer under `key` in a JSON object, where there is one.
pub(crate) fn member_unsigned(value: &serde_json::Value, key: &str) -> (r: Option<u64>)
    ensures
        r == unsigned_member(*value, key@),
{
    match member(value, key) {
        Some(v) => as_unsigned(v),
        None => None,
    }
}

} // verus!
