//! `serde_json`: parsing a text into a `Value` and reading members, strings
//! and arrays out of it.
use serde_json::Value;
use std::sync::Arc;
use vstd::prelude::*;

verus! {

#[verifier::external_type_specification]
#[verifier::external_body]
pub struct ExJsonValue(serde_json::Value);

#[verifier::external_type_specification]
#[verifier::external_body]
pub struct ExJsonError(serde_json::Error);

/// What `serde_json::from_str::<Value>` gives for a text.
pub uninterp spec fn json_parse(text: Seq<char>) -> Result<Value, serde_json::Error>;

/// What `Value::get` gives for a string key: the member of an object under
/// that key (`None` for a missing key and for a value that is no object).
pub uninterp spec fn json_member(v: Value, key: Seq<char>) -> Option<Value>;

/// What `Value::as_str` gives: the text of a JSON string, `None` otherwise.
pub uninterp spec fn json_text(v: Value) -> Option<Seq<char>>;

/// What `Value::as_array` gives: the items of a JSON array, `None` otherwise.
pub uninterp spec fn json_items(v: Value) -> Option<Seq<Value>>;

/// What the `Display` impl of `serde_json::Error` writes.
pub uninterp spec fn json_error_text(e: serde_json::Error) -> Seq<char>;

/// `serde_json::from_str::<Value>`: the result is the one named by `json_parse`.
#[verifier::external_body]
pub(crate) fn parse_json(text: &str) -> (res: Result<Value, serde_json::Error>)
    ensures
        res == json_parse(text@),
{
    serde_json::from_str::<Value>(text)
}

/// `Value::get` with a string key.
#[verifier::external_body]
pub(crate) fn member<'a>(v: &'a Value, key: &str) -> (res: Option<&'a Value>)
    ensures
        match res {
            Some(m) => json_member(*v, key@) == Some(*m),
            None => json_member(*v, key@) is None,
        },
{
    v.get(key)
}

/// `Value::as_str`.
#[verifier::external_body]
pub(crate) fn text_of(v: &Value) -> (res: Option<&str>)
    ensures
        match res {
            Some(s) => json_text(*v) == Some(s@),
            None => json_text(*v) is None,
        },
{
    v.as_str()
}

/// `Value::as_array`.
#[verifier::external_body]
pub(crate) fn items_of(v: &Value) -> (res: Option<&Vec<Value>>)
    ensures
        match res {
            Some(a) => json_items(*v) == Some(a@),
            None => json_items(*v) is None,
        },
{
    v.as_array()
}

/// `Clone` of `Value`, which is derived: the copy holds the same JSON value.
#[verifier::external_body]
pub(crate) fn copy_value(v: &Value) -> (res: Value)
    ensures
        res == *v,
{
    v.clone()
}

/// `Arc::clone`: a second handle on the same value.
#[verifier::external_body]
pub(crate) fn share_value(v: &Arc<Value>) -> (res: Arc<Value>)
    ensures
        res == *v,
{
    Arc::clone(v)
}

/// The `Display` text of a `serde_json::Error`.
#[verifier::external_body]
pub(crate) fn json_error_message(e: &serde_json::Error) -> (res: String)
    ensures
        res@ == json_error_text(*e),
{
    format!("{}", e)
}

} // verus!
