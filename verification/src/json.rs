//! JSON values as `serde_json` holds them, and the few operations on them
//! that the protocol layer needs. Nothing here is proved: each function
//! states what the `serde_json` function it calls is documented to do.

use vstd::prelude::*;
use serde_json::Value;

verus! {

/// `serde_json::Value`, carried through verified code as an opaque value.
#[verifier::external_type_specification]
#[verifier::external_body]
pub struct ExValue(serde_json::Value);

/// The value that `serde_json::from_str` decodes a text to, if it is JSON.
pub uninterp spec fn json_parsed(text: Seq<char>) -> Option<Value>;

/// The text of a value that is a JSON string (`Value::as_str`).
pub uninterp spec fn json_str(v: Value) -> Option<Seq<char>>;

/// The elements of a value that is a JSON array (`Value::as_array`).
pub uninterp spec fn json_items(v: Value) -> Option<Seq<Value>>;

/// The member of a JSON object under a key (`Value::get` with a string).
pub uninterp spec fn json_field(v: Value, key: Seq<char>) -> Option<Value>;

/// The number in a value that is a JSON integer within `i64`
/// (`Value::as_i64`).
pub uninterp spec fn json_int(v: Value) -> Option<i64>;

/// The number in a value that is a non-negative JSON integer
/// (`Value::as_u64`).
pub uninterp spec fn json_uint(v: Value) -> Option<u64>;

/// The compact text that `Value`'s `Display` writes.
pub uninterp spec fn json_rendered(v: Value) -> Seq<char>;

/// Whether the value is JSON null (`Value::is_null`).
pub uninterp spec fn json_is_null(v: Value) -> bool;

/// Whether the value is a JSON object (`Value::is_object`).
pub uninterp spec fn json_is_object(v: Value) -> bool;

/// Whether a member can be set on the value by a string index: it is an
/// object, or null (which such an assignment turns into an object).
pub open spec fn json_accepts_fields(v: Value) -> bool {
    json_is_object(v) || json_is_null(v)
}

/// Whether the value is null as every reading shows it: no string, no
/// array, no integer, and without members.
pub open spec fn is_null(v: Value) -> bool {
    &&& json_is_null(v)
    &&& !json_is_object(v)
    &&& json_str(v) is None
    &&& json_items(v) is None
    &&& json_int(v) is None
    &&& json_uint(v) is None
    &&& forall|k: Seq<char>| (#[trigger] json_field(v, k)) is None
}

/// `serde_json::from_str::<Value>`: the decoded value, `None` where the text
/// is not JSON. The result depends on the text alone.
#[verifier::external_body]
pub(crate) fn parse_value(text: &str) -> (r: Option<Value>)
    ensures
        r == json_parsed(text@),
{
    serde_json::from_str::<Value>(text).ok()
}

/// `Value::as_str`: the text of a JSON string, `None` for any other value.
#[verifier::external_body]
pub(crate) fn value_text(v: &Value) -> (r: Option<String>)
    ensures
        r is Some <==> json_str(*v) is Some,
        r matches Some(s) ==> json_str(*v) == Some(s@),
{
    v.as_str().map(|s| s.to_string())
}

/// `Value::as_array`: the elements of a JSON array in order, `None` for any
/// other value.
#[verifier::external_body]
pub(crate) fn value_items(v: &Value) -> (r: Option<Vec<Value>>)
    ensures
        r is Some <==> json_items(*v) is Some,
        r matches Some(items) ==> json_items(*v) == Some(items@),
{
    v.as_array().cloned()
}

/// `Value::get` with a string key: the member of an object under that key;
/// `None` where the value is no object or has no such member.
#[verifier::external_body]
pub(crate) fn value_field(v: &Value, key: &str) -> (r: Option<Value>)
    ensures
        r == json_field(*v, key@),
        r is Some ==> json_is_object(*v),
{
    v.get(key).cloned()
}

/// `Value::as_i64`: the number of a JSON integer that fits `i64`, `None` for
/// any other value.
#[verifier::external_body]
pub(crate) fn value_integer(v: &Value) -> (r: Option<i64>)
    ensures
        r == json_int(*v),
{
    v.as_i64()
}

/// `Value::clone`: an equal value.
#[verifier::external_body]
pub(crate) fn value_clone(v: &Value) -> (r: Value)
    ensures
        r == *v,
{
    v.clone()
}

/// `Value::from` on a string slice: the JSON string with that text.
#[verifier::external_body]
pub(crate) fn json_string(s: &str) -> (r: Value)
    ensures
        json_str(r) == Some(s@),
{
    Value::from(s)
}

/// `Value::from` on a vector of values: the JSON array of those elements.
#[verifier::external_body]
pub(crate) fn json_list(items: Vec<Value>) -> (r: Value)
    ensures
        json_items(r) == Some(items@),
{
    Value::from(items)
}

/// `Value::from` on a `u64`: the JSON integer of that number, which
/// `as_u64` gives back, and `as_i64` where it fits.
#[verifier::external_body]
pub(crate) fn json_number(n: u64) -> (r: Value)
    ensures
        json_uint(r) == Some(n),
        n <= i64::MAX ==> json_int(r) == Some(n as i64),
        n > i64::MAX ==> json_int(r) is None,
{
    Value::from(n)
}

/// `Value::is_null`: whether the value is JSON null.
#[verifier::external_body]
pub(crate) fn value_is_null(v: &Value) -> (r: bool)
    ensures
        r == json_is_null(*v),
{
    v.is_null()
}

/// `Value::is_object`: whether the value is a JSON object.
#[verifier::external_body]
pub(crate) fn value_is_object(v: &Value) -> (r: bool)
    ensures
        r == json_is_object(*v),
{
    v.is_object()
}

/// `Value::Null`: the null value, which is no object, string, array or
/// integer and has no members.
#[verifier::external_body]
pub(crate) fn json_null() -> (r: Value)
    ensures
        is_null(r),
{
    Value::Null
}

/// Assignment through `Value`'s `IndexMut<&str>`, which panics on a value
/// that is neither an object nor null: the result is an object in which
/// the member under the key is set and every other member is as it was.
#[verifier::external_body]
pub(crate) fn set_field(base: Value, key: &str, val: Value) -> (r: Value)
    requires
        json_is_object(base) || json_is_null(base),
    ensures
        json_is_object(r),
        json_field(r, key@) == Some(val),
        forall|k: Seq<char>| k != key@ ==> (#[trigger] json_field(r, k)) == json_field(base, k),
{
    let mut v = base;
    v[key] = val;
    v
}

/// `Value`'s `to_string`: the compact JSON text of the value.
#[verifier::external_body]
pub(crate) fn render(v: &Value) -> (r: String)
    ensures
        r@ == json_rendered(*v),
{
    v.to_string()
}

} // verus!
