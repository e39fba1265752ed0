//! Trusted boundary around `serde_json`: the JSON value type is declared
//! opaque, parsing gets a name (it is a function of the text alone), and the
//! accessors the normalizer reads values through get exact contracts over
//! that name.

use vstd::prelude::*;

verus! {

#[verifier::external_type_specification]
#[verifier::external_body]
pub struct ExValue(serde_json::Value);

/// The value a JSON text denotes, when it parses.
pub uninterp spec fn json_of(s: Seq<char>) -> Option<serde_json::Value>;

/// The field of an object value under a key; nothing for other values.
pub uninterp spec fn obj_field(v: serde_json::Value, key: Seq<char>) -> Option<serde_json::Value>;

/// The characters of a string value; nothing for other values.
pub uninterp spec fn str_content(v: serde_json::Value) -> Option<Seq<char>>;

/// The integer of a number value that is a signed 64-bit integer.
pub uninterp spec fn int_content(v: serde_json::Value) -> Option<int>;

/// The items of an array value; nothing for other values.
pub uninterp spec fn arr_content(v: serde_json::Value) -> Option<Seq<serde_json::Value>>;

/// Whether a value is the JSON null.
pub uninterp spec fn null_value(v: serde_json::Value) -> bool;

/// Relies on `serde_json::from_str::<Value>`: parsing a complete JSON text is
/// deterministic, a function of the text alone.
#[verifier::external_body]
pub fn jv_parse(s: &str) -> (r: Option<serde_json::Value>)
    ensures
        r == json_of(s@),
{
    serde_json::from_str(s).ok()
}

/// Relies on `serde_json::Value::get` with a string key: field lookup in an
/// object, nothing on other values.
#[verifier::external_body]
pub fn jv_get<'a>(v: &'a serde_json::Value, key: &str) -> (r: Option<&'a serde_json::Value>)
    ensures
        match r {
            Some(f) => obj_field(*v, key@) == Some(*f),
            None => obj_field(*v, key@) is None,
        },
{
    v.get(key)
}

/// Relies on `serde_json::Value::as_str`: the content of a string value.
#[verifier::external_body]
pub fn jv_as_str(v: &serde_json::Value) -> (r: Option<String>)
    ensures
        match r {
            Some(s) => str_content(*v) == Some(s@),
            None => str_content(*v) is None,
        },
{
    v.as_str().map(|s| s.to_string())
}

/// Relies on `serde_json::Value::as_i64`: the integer of a number value.
#[verifier::external_body]
pub fn jv_as_i64(v: &serde_json::Value) -> (r: Option<i64>)
    ensures
        match r {
            Some(n) => int_content(*v) == Some(n as int),
            None => int_content(*v) is None,
        },
{
    v.as_i64()
}

/// Relies on `serde_json::Value::as_array`: how many items an array holds.
#[verifier::external_body]
pub fn jv_arr_len(v: &serde_json::Value) -> (r: Option<usize>)
    ensures
        match r {
            Some(n) => arr_content(*v) matches Some(items) && items.len() == n,
            None => arr_content(*v) is None,
        },
{
    v.as_array().map(|a| a.len())
}

/// Relies on `serde_json::Value::as_array` and slice indexing: one item of an
/// array value.
#[verifier::external_body]
pub fn jv_arr_get<'a>(v: &'a serde_json::Value, i: usize) -> (r: Option<&'a serde_json::Value>)
    ensures
        match r {
            Some(item) => arr_content(*v) matches Some(items) && i < items.len() && items[i as int]
                == *item,
            None => match arr_content(*v) {
                Some(items) => i >= items.len(),
                None => true,
            },
        },
{
    v.as_array().and_then(|a| a.get(i))
}

/// Relies on `serde_json::Value::is_null`.
#[verifier::external_body]
pub fn jv_is_null(v: &serde_json::Value) -> (r: bool)
    ensures
        r == null_value(*v),
{
    v.is_null()
}

/// Relies on `serde_json::Value::clone`: the same value.
#[verifier::external_body]
pub fn jv_clone(v: &serde_json::Value) -> (r: serde_json::Value)
    ensures
        r == *v,
{
    v.clone()
}

} // verus!
