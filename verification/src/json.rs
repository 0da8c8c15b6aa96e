//! JSON values, which `serde_json` parses, prints and takes apart.
use serde_json::Value;
use vstd::prelude::*;

verus! {

/// A JSON value of `serde_json`.
#[verifier::external_type_specification]
#[verifier::external_body]
pub struct ExValue(serde_json::Value);

/// The error of `serde_json` when a text is no JSON or a value cannot be printed.
#[verifier::external_type_specification]
#[verifier::external_body]
pub struct ExJsonError(serde_json::Error);

/// What `serde_json::from_str` makes of a text: the JSON value it spells, or `None`
/// where it is refused.
pub uninterp spec fn parsed_json(text: Seq<char>) -> Option<Value>;

/// What `serde_json::to_string` prints for a value, or `None` where it fails.
pub uninterp spec fn printed_json(value: Value) -> Option<Seq<char>>;

/// What `serde_json::Value::get` finds under a key: the member of an object.
pub uninterp spec fn json_member(value: Value, key: Seq<char>) -> Option<Value>;

/// What `serde_json::Value::as_str` gives: the characters of a JSON string, `None` for
/// any other value.
pub uninterp spec fn json_string(value: Value) -> Option<Seq<char>>;

/// `serde_json::from_str` for a [`Value`]: the outcome depends on the text alone and is
/// called [`parsed_json`].
#[verifier::external_body]
pub(crate) fn parse_json(text: &str) -> (res: Result<Value, serde_json::Error>)
    ensures
        match res {
            Ok(value) => parsed_json(text@) == Some(value),
            Err(_) => parsed_json(text@) is None,
        },
{
    serde_json::from_str::<Value>(text)
}

/// `serde_json::to_string` for a [`Value`]: the outcome depends on the value alone and
/// is called [`printed_json`].
#[verifier::external_body]
pub(crate) fn print_json(value: &Value) -> (res: Result<String, serde_json::Error>)
    ensures
        match res {
            Ok(text) => printed_json(*value) == Some(text@),
            Err(_) => printed_json(*value) is None,
        },
{
    serde_json::to_string(value)
}

/// `serde_json::Value::get` with a text key: the outcome depends on the value and the
/// key alone and is called [`json_member`].
#[verifier::external_body]
pub(crate) fn member<'a>(value: &'a Value, key: &str) -> (res: Option<&'a Value>)
    ensures
        match res {
            Some(found) => json_member(*value, key@) == Some(*found),
            None => json_member(*value, key@) is None,
        },
{
    value.get(key)
}

/// `serde_json::Value::as_str`: the outcome depends on the value alone and is called
/// [`json_string`].
#[verifier::external_body]
pub(crate) fn string_of<'a>(value: &'a Value) -> (res: Option<&'a str>)
    ensures
        match res {
            Some(text) => json_string(*value) == Some(text@),
            None => json_string(*value) is None,
        },
{
    value.as_str()
}

/// `Value::clone` of `serde_json`, which the crate derives: the copy is the same JSON
/// value.
pub assume_specification[ <serde_json::Value as Clone>::clone ](value: &serde_json::Value) -> (copy:
    serde_json::Value)
    ensures
        copy == *value,
;

/// Copies a list of JSON values.
pub fn copy_values(list: &Vec<Value>) -> (copy: Vec<Value>)
    ensures
        copy@ == list@,
{
    let mut copy: Vec<Value> = Vec::new();
    let mut i: usize = 0;
    while i < list.len()
        invariant
            i <= list.len(),
            copy@ == list@.take(i as int),
        decreases list.len() - i,
    {
        copy.push(list[i].clone());
        assert(list@.take(i + 1) =~= list@.take(i as int).push(list@[i as int]));
        i += 1;
    }
    assert(list@.take(i as int) =~= list@);
    copy
}

} // verus!
