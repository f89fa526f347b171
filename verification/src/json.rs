//! JSON documents, read through the few questions that the commands ask
//! of them.

use serde_json::Value;
use vstd::prelude::*;
use vstd::string::*;

verus! {

#[verifier::external_type_specification]
#[verifier::external_body]
pub struct ExValue(Value);

#[verifier::external_type_specification]
#[verifier::external_body]
pub struct ExJsonError(serde_json::Error);

/// A text that is no JSON document, with the parser's complaint.
#[derive(Debug)]
pub struct JsonError {
    pub message: String,
}

/// The document that `text` writes down, if it is well-formed JSON.
pub uninterp spec fn json_parsed(text: Seq<char>) -> Option<Value>;

/// The member `key` of the object `value`; null if `value` is no object or
/// has no such member.
pub uninterp spec fn json_member(value: Value, key: Seq<char>) -> Value;

/// The text of `value`, if it is a string.
pub uninterp spec fn json_text(value: Value) -> Option<Seq<char>>;

/// The elements of `value`, if it is an array.
pub uninterp spec fn json_items(value: Value) -> Option<Seq<Value>>;

/// `serde_json::from_str` into a `Value`: the document that the text
/// writes down, or an error if it writes none.
#[verifier::external_body]
pub(crate) fn parse(text: &str) -> (r: Result<Value, serde_json::Error>)
    ensures
        match r {
            Ok(value) => json_parsed(text@) == Some(value),
            Err(_) => json_parsed(text@) is None,
        },
{
    serde_json::from_str(text)
}

/// Indexing a `Value` by a string key, which never fails: it yields the
/// member, or null where there is none.
#[verifier::external_body]
pub(crate) fn member<'a>(value: &'a Value, key: &str) -> (r: &'a Value)
    ensures
        *r == json_member(*value, key@),
{
    &value[key]
}

/// `Value::as_str`: the text of a string, nothing for any other value.
#[verifier::external_body]
pub(crate) fn as_text<'a>(value: &'a Value) -> (r: Option<&'a str>)
    ensures
        match r {
            Some(text) => json_text(*value) == Some(text@),
            None => json_text(*value) is None,
        },
{
    value.as_str()
}

/// `Value::as_array`: the elements of an array, nothing for any other
/// value.
#[verifier::external_body]
pub(crate) fn as_items<'a>(value: &'a Value) -> (r: Option<&'a Vec<Value>>)
    ensures
        match r {
            Some(items) => json_items(*value) == Some(items@),
            None => json_items(*value) is None,
        },
{
    value.as_array()
}

/// The parser's complaint, as its `Debug` form writes it.
#[verifier::external_body]
pub(crate) fn json_error(e: serde_json::Error) -> JsonError {
    JsonError { message: format!("{:?}", e) }
}

/// The text of `value` if it is a string, else the empty text.
pub open spec fn text_or_empty(value: Value) -> Seq<char> {
    match json_text(value) {
        Some(text) => text,
        None => Seq::empty(),
    }
}

/// The text of the member `key` of `value`, or the empty text if there is
/// no such member or it is no string.
pub open spec fn member_text(value: Value, key: Seq<char>) -> Seq<char> {
    text_or_empty(json_member(value, key))
}

/// The text of `value` if it is a string, else the empty text.
pub(crate) fn text_of(value: &Value) -> (r: String)
    ensures
        r@ == text_or_empty(*value),
{
    match as_text(value) {
        Some(text) => String::from_str(text),
        None => String::new(),
    }
}

/// The text of the member `key` of `value`, or the empty text.
pub(crate) fn member_text_of(value: &Value, key: &str) -> (r: String)
    ensures
        r@ == member_text(*value, key@),
{
    text_of(member(value, key))
}

} // verus!
