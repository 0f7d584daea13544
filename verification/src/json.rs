//! The JSON documents of the node, read through `serde_json`.
//!
//! A `serde_json::Value` is opaque to the verifier. What the accessors of
//! `serde_json` answer on a value is given a name here, and every contract of
//! the library that reads a document speaks of those names.

use vstd::prelude::*;

verus! {

#[verifier::external_type_specification]
#[verifier::external_body]
pub struct ExJsonValue(serde_json::Value);

/// The member that a JSON value holds under `key`: some value where the value
/// is an object with that key, nothing otherwise.
pub uninterp spec fn json_member(v: serde_json::Value, key: Seq<char>) -> Option<serde_json::Value>;

/// The characters of a JSON string; nothing for any other value.
pub uninterp spec fn json_string(v: serde_json::Value) -> Option<Seq<char>>;

/// The number that a JSON value holds, where it is a whole number that fits
/// in 64 bits without a sign; nothing otherwise.
pub uninterp spec fn json_unsigned(v: serde_json::Value) -> Option<u64>;

/// The elements of a JSON array, in order; nothing for any other value.
pub uninterp spec fn json_elements(v: serde_json::Value) -> Option<Seq<serde_json::Value>>;

/// The compact JSON text of a value.
pub uninterp spec fn json_text(v: serde_json::Value) -> Seq<char>;

/// `serde_json::Value::get` with a string key. Trusted: the answer is the
/// member named by `json_member`, and depends on the value and the key alone.
#[verifier::external_body]
pub(crate) fn member<'a>(v: &'a serde_json::Value, key: &str) -> (r: Option<&'a serde_json::Value>)
    ensures
        match r {
            Some(m) => json_member(*v, key@) == Some(*m),
            None => json_member(*v, key@) is None,
        },
{
    v.get(key)
}

/// `serde_json::Value::as_str`. Trusted: the answer is the string named by
/// `json_string`.
#[verifier::external_body]
pub(crate) fn as_string<'a>(v: &'a serde_json::Value) -> (r: Option<&'a str>)
    ensures
        match r {
            Some(s) => json_string(*v) == Some(s@),
            None => json_string(*v) is None,
        },
{
    v.as_str()
}

/// `serde_json::Value::as_u64`. Trusted: the answer is the number named by
/// `json_unsigned`.
#[verifier::external_body]
pub(crate) fn as_unsigned(v: &serde_json::Value) -> (r: Option<u64>)
    ensures
        r == json_unsigned(*v),
{
    v.as_u64()
}

/// `serde_json::Value::as_array`. Trusted: the answer holds the elements named
/// by `json_elements`, in the same order.
#[verifier::external_body]
pub(crate) fn as_elements<'a>(v: &'a serde_json::Value) -> (r: Option<&'a Vec<serde_json::Value>>)
    ensures
        match r {
            Some(a) => json_elements(*v) == Some(a@),
            None => json_elements(*v) is None,
        },
{
    v.as_array()
}

/// `to_string` on a `serde_json::Value`, which writes the value as compact
/// JSON. Trusted: the answer is the text named by `json_text`.
#[verifier::external_body]
pub(crate) fn to_text(v: &serde_json::Value) -> (r: String)
    ensures
        r@ == json_text(*v),
{
    v.to_string()
}

} // verus!
