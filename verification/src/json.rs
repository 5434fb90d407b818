//! A mathematical model of JSON documents, and the trusted view of
//! `serde_json` values through it.
use vstd::prelude::*;
use crate::text::{all_digits, digits_val};

verus! {

/// The model of a JSON document. A number is modelled by the decimal text
/// its value prints as; an object by a map from key to value, so a repeated
/// key keeps its last binding.
pub enum JsonData {
    Null,
    Bool(bool),
    Num(Seq<char>),
    Str(Seq<char>),
    Arr(Seq<JsonData>),
    Obj(Map<Seq<char>, JsonData>),
}

#[verifier::external_type_specification]
#[verifier::external_body]
pub struct ExValue(serde_json::Value);

/// The model of a `serde_json` value.
pub uninterp spec fn json_view(v: serde_json::Value) -> JsonData;

/// What `serde_json::from_str::<Value>` returns on a given text; the result
/// depends on the characters alone.
pub uninterp spec fn json_of(s: Seq<char>) -> Option<JsonData>;

/// The models of a sequence of values.
pub open spec fn arr_view(s: Seq<serde_json::Value>) -> Seq<JsonData> {
    s.map_values(|v: serde_json::Value| json_view(v))
}

/// The field of an object under a key; `None` on a missing key or on
/// anything that is not an object.
pub open spec fn obj_field(d: JsonData, key: Seq<char>) -> Option<JsonData> {
    match d {
        JsonData::Obj(m) => if m.contains_key(key) {
            Some(m[key])
        } else {
            None
        },
        _ => None,
    }
}

/// An optional field: a JSON `null` counts as absent.
pub open spec fn present_field(d: JsonData, key: Seq<char>) -> Option<JsonData> {
    match obj_field(d, key) {
        Some(JsonData::Null) => None,
        x => x,
    }
}

/// The decimal text of an unsigned 64-bit integer: bare digits with no
/// leading zero.
pub open spec fn is_u64_digits(t: Seq<char>) -> bool {
    all_digits(t) && (t.len() == 1 || t[0] != '0') && digits_val(t) <= u64::MAX
}

/// The unsigned integer a number model holds, if its printed text is a bare
/// decimal digit string.
pub open spec fn num_u64_of(d: JsonData) -> Option<u64> {
    match d {
        JsonData::Num(t) => if is_u64_digits(t) {
            Some(digits_val(t) as u64)
        } else {
            None
        },
        _ => None,
    }
}

/// Relies on `serde_json::from_str::<Value>`: the parse result depends on the
/// input text alone.
#[verifier::external_body]
pub(crate) fn json_parse(s: &str) -> (r: Option<serde_json::Value>)
    ensures
        r is Some <==> json_of(s@) is Some,
        r matches Some(v) ==> json_of(s@) == Some(json_view(v)),
{
    serde_json::from_str::<serde_json::Value>(s).ok()
}

/// Relies on `serde_json::Value::get` with a string index: on an object it
/// looks the key up, on anything else it returns nothing.
#[verifier::external_body]
pub(crate) fn value_get<'a>(v: &'a serde_json::Value, key: &str) -> (r: Option<
    &'a serde_json::Value,
>)
    ensures
        r is Some <==> obj_field(json_view(*v), key@) is Some,
        r matches Some(x) ==> obj_field(json_view(*v), key@) == Some(json_view(*x)),
{
    v.get(key)
}

/// Relies on `serde_json::Value::is_null`.
#[verifier::external_body]
pub(crate) fn value_is_null(v: &serde_json::Value) -> (r: bool)
    ensures
        r == (json_view(*v) is Null),
{
    v.is_null()
}

/// Relies on `serde_json::Value::as_str`: the borrowed text of a string
/// value, nothing for any other value.
#[verifier::external_body]
pub(crate) fn value_as_str<'a>(v: &'a serde_json::Value) -> (r: Option<&'a str>)
    ensures
        r is Some <==> json_view(*v) is Str,
        r matches Some(s) ==> json_view(*v) == JsonData::Str(s@),
{
    v.as_str()
}

/// Relies on `serde_json::Value::as_array`: the borrowed elements of an
/// array value, nothing for any other value.
#[verifier::external_body]
pub(crate) fn value_as_array<'a>(v: &'a serde_json::Value) -> (r: Option<
    &'a Vec<serde_json::Value>,
>)
    ensures
        r is Some <==> json_view(*v) is Arr,
        r matches Some(a) ==> json_view(*v) == JsonData::Arr(arr_view(a@)),
{
    v.as_array()
}

/// Relies on `serde_json::Value::as_u64` and `serde_json::Number`'s
/// `Display`: a number prints as a bare decimal digit string exactly when it
/// holds an unsigned integer, which `as_u64` then returns.
#[verifier::external_body]
pub(crate) fn value_as_u64(v: &serde_json::Value) -> (r: Option<u64>)
    ensures
        r == num_u64_of(json_view(*v)),
{
    v.as_u64()
}

/// Relies on `serde_json::Value::as_number` and `serde_json::Number`'s
/// `Display`: the printed text depends on the numeric value alone.
#[verifier::external_body]
pub(crate) fn value_num_string(v: &serde_json::Value) -> (r: Option<String>)
    ensures
        r is Some <==> json_view(*v) is Num,
        r matches Some(t) ==> json_view(*v) == JsonData::Num(t@),
{
    v.as_number().map(|n| n.to_string())
}

/// Looks an optional field up, treating a JSON `null` as absent.
pub(crate) fn get_present<'a>(v: &'a serde_json::Value, key: &str) -> (r: Option<
    &'a serde_json::Value,
>)
    ensures
        r is Some <==> present_field(json_view(*v), key@) is Some,
        r matches Some(x) ==> present_field(json_view(*v), key@) == Some(json_view(*x)),
{
    match value_get(v, key) {
        None => None,
        Some(x) => if value_is_null(x) {
            None
        } else {
            Some(x)
        },
    }
}

} // verus!
