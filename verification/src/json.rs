//! The JSON documents the pipeline reads, modeled for specification.
//!
//! Parsing is done by the `serde_json` crate; this module declares its
//! `Value` type, names what parsing yields, and wraps the accessors the
//! response parsers navigate with. The shape checks themselves are
//! verified code in the discovery, detail and envelope modules.

use vstd::prelude::*;

verus! {

/// A JSON document, as specifications see it. Integer-valued numbers carry
/// their value; other numbers are kept abstract, since the pipeline never
/// reads one.
pub enum JsonData {
    Null,
    Bool(bool),
    Num(int),
    NonIntNum,
    Str(Seq<char>),
    Arr(Seq<JsonData>),
    Obj(Map<Seq<char>, JsonData>),
}

#[verifier::external_type_specification]
#[verifier::external_body]
pub struct ExJsonValue(serde_json::Value);

/// What parsing a text as one JSON document yields: the document, or
/// nothing when the text is not valid JSON. A function of the text alone.
pub uninterp spec fn json_text(s: Seq<char>) -> Option<JsonData>;

/// The document a parsed `serde_json::Value` holds.
pub uninterp spec fn json_view(v: serde_json::Value) -> JsonData;

/// Relies on serde_json::from_str::<Value>: parses the text as one JSON
/// document; success and result depend on the text alone.
#[verifier::external_body]
pub fn parse_json(s: &str) -> (r: Result<serde_json::Value, String>)
    ensures
        r is Ok <==> json_text(s@) is Some,
        r matches Ok(v) ==> json_view(v) == json_text(s@)->Some_0,
{
    serde_json::from_str::<serde_json::Value>(s).map_err(|e| e.to_string())
}

/// Relies on serde_json::Value::get with a string index: on an object, the
/// member under the key; nothing on any other document.
#[verifier::external_body]
pub fn json_get<'a>(v: &'a serde_json::Value, key: &str) -> (r: Option<&'a serde_json::Value>)
    ensures
        match json_view(*v) {
            JsonData::Obj(m) => match r {
                Option::Some(w) => m.contains_key(key@) && json_view(*w) == m[key@],
                Option::None => !m.contains_key(key@),
            },
            _ => r is None,
        },
{
    v.get(key)
}

/// Relies on serde_json::Value::as_str: the characters of a string
/// document, nothing on any other.
#[verifier::external_body]
pub fn json_as_str<'a>(v: &'a serde_json::Value) -> (r: Option<&'a str>)
    ensures
        match json_view(*v) {
            JsonData::Str(s) => r matches Some(t) && t@ == s,
            _ => r is None,
        },
{
    v.as_str()
}

/// Relies on serde_json::Value::as_i64: the value of an integer-valued
/// number document when it fits an i64, nothing otherwise.
#[verifier::external_body]
pub fn json_as_i64(v: &serde_json::Value) -> (r: Option<i64>)
    ensures
        match json_view(*v) {
            JsonData::Num(n) => if i64::MIN <= n <= i64::MAX {
                r == Some(n as i64)
            } else {
                r is None
            },
            _ => r is None,
        },
{
    v.as_i64()
}

/// Relies on serde_json::Value::as_array: the elements of an array
/// document, nothing on any other.
#[verifier::external_body]
pub fn json_as_array<'a>(v: &'a serde_json::Value) -> (r: Option<&'a Vec<serde_json::Value>>)
    ensures
        match json_view(*v) {
            JsonData::Arr(a) => r matches Some(vs) && vs@.len() == a.len() && (forall|i: int|
                0 <= i < a.len() ==> json_view(vs@[i]) == a[i]),
            _ => r is None,
        },
{
    v.as_array()
}

/// Relies on serde_json::Value::is_null.
#[verifier::external_body]
pub fn json_is_null(v: &serde_json::Value) -> (r: bool)
    ensures
        r == (json_view(*v) is Null),
{
    v.is_null()
}

} // verus!
