//! Reading the parameters of a call from a JSON value.

use serde_json::Value;
use vstd::prelude::*;
use crate::types::text_view;

verus! {

/// The JSON values of `serde_json`. What is inside one is known here only through the
/// functions below.
#[verifier::external_type_specification]
#[verifier::external_body]
pub struct ExValue(serde_json::Value);

/// What `serde_json::Value::get` returns for a text key: the member of that name if the
/// value is an object that has one.
pub uninterp spec fn json_member(v: Value, key: Seq<char>) -> Option<Value>;

/// What `serde_json::Value::as_str` returns: the text if the value is a string.
pub uninterp spec fn json_text(v: Value) -> Option<Seq<char>>;

/// What `serde_json::Value::as_u64` returns: the number if the value is an integer that
/// is not negative and fits 64 bits.
pub uninterp spec fn json_count(v: Value) -> Option<u64>;

/// What `serde_json::Value::as_bool` returns: the truth value if the value is a boolean.
pub uninterp spec fn json_flag(v: Value) -> Option<bool>;

/// `serde_json::Value::get` with a text key. The member that it returns depends on the
/// value and the key alone.
#[verifier::external_body]
fn member<'a>(v: &'a Value, key: &str) -> (r: Option<&'a Value>)
    ensures
        r.is_some() == json_member(*v, key@).is_some(),
        r matches Some(m) ==> json_member(*v, key@) == Some(*m),
{
    v.get(key)
}

/// `serde_json::Value::as_str`. The text that it returns depends on the value alone.
pub assume_specification<'a>[ serde_json::Value::as_str ](v: &'a Value) -> (r: Option<&'a str>)
    ensures
        r.is_some() == json_text(*v).is_some(),
        r matches Some(s) ==> json_text(*v) == Some(s@),
;

/// `serde_json::Value::as_u64`. The number that it returns depends on the value alone.
pub assume_specification[ serde_json::Value::as_u64 ](v: &Value) -> (r: Option<u64>)
    ensures
        r == json_count(*v),
;

/// `serde_json::Value::as_bool`. The truth value that it returns depends on the value
/// alone.
pub assume_specification[ serde_json::Value::as_bool ](v: &Value) -> (r: Option<bool>)
    ensures
        r == json_flag(*v),
;

/// The text of the member `key` of `v`, if `v` has such a member and it is a string.
pub open spec fn text_at(v: Value, key: Seq<char>) -> Option<Seq<char>> {
    match json_member(v, key) {
        Some(m) => json_text(m),
        None => None,
    }
}

/// The number of the member `key` of `v`, if `v` has such a member and it is an integer
/// that is not negative.
pub open spec fn count_at(v: Value, key: Seq<char>) -> Option<u64> {
    match json_member(v, key) {
        Some(m) => json_count(m),
        None => None,
    }
}

/// The truth value of the member `key` of `v`, if `v` has such a member and it is a
/// boolean.
pub open spec fn flag_at(v: Value, key: Seq<char>) -> Option<bool> {
    match json_member(v, key) {
        Some(m) => json_flag(m),
        None => None,
    }
}

/// The text of the member `key` of `v`.
pub fn text_member(v: &Value, key: &str) -> (r: Option<String>)
    ensures
        text_view(r) == text_at(*v, key@),
{
    match member(v, key) {
        Some(m) => match m.as_str() {
            Some(s) => Some(s.to_owned()),
            None => None,
        },
        None => None,
    }
}

/// The number of the member `key` of `v`.
pub fn count_member(v: &Value, key: &str) -> (r: Option<u64>)
    ensures
        r == count_at(*v, key@),
{
    match member(v, key) {
        Some(m) => m.as_u64(),
        None => None,
    }
}

/// The truth value of the member `key` of `v`.
pub fn flag_member(v: &Value, key: &str) -> (r: Option<bool>)
    ensures
        r == flag_at(*v, key@),
{
    match member(v, key) {
        Some(m) => m.as_bool(),
        None => None,
    }
}

} // verus!
