//! The trusted surface over serde_json: declarations of its types and thin
//! wrappers around the few calls the feed decoder makes.
//!
//! A `serde_json::Value` is opaque to the verifier, so what a value holds is
//! carried by names: whether a text parses, whether a value is null, an
//! object, an array, and the payload of a string or number value. Each name
//! stands for the outcome of one serde_json item, which depends on the
//! argument alone; the wrappers' contracts apply the names, and the decoder
//! is verified against them.

use vstd::prelude::*;

verus! {

#[verifier::external_type_specification]
#[verifier::external_body]
pub struct ExValue(serde_json::Value);

#[verifier::external_type_specification]
#[verifier::external_body]
#[verifier::reject_recursive_types(K)]
#[verifier::reject_recursive_types(V)]
pub struct ExMap<K, V>(serde_json::Map<K, V>);

#[verifier::external_type_specification]
#[verifier::external_body]
pub struct ExError(serde_json::Error);

/// Whether `serde_json::from_str` accepts this text as JSON.
pub uninterp spec fn json_parses(s: Seq<char>) -> bool;

/// Whether a value is JSON null.
pub uninterp spec fn is_null_of(v: serde_json::Value) -> bool;

/// Whether a value is a JSON object.
pub uninterp spec fn is_object_of(v: serde_json::Value) -> bool;

/// Whether a value is a JSON array.
pub uninterp spec fn is_array_of(v: serde_json::Value) -> bool;

/// The text of a JSON string value; nothing when the value is not a string.
pub uninterp spec fn string_of(v: serde_json::Value) -> Option<Seq<char>>;

/// The decimal text of a JSON number value, as its `Display` renders it;
/// nothing when the value is not a number.
pub uninterp spec fn number_text_of(v: serde_json::Value) -> Option<Seq<char>>;

/// Relies on `serde_json::from_str`: parses JSON text into a generic value,
/// and fails exactly when the text is not valid JSON.
#[verifier::external_body]
pub(crate) fn json_from_str(s: &str) -> (r: Result<serde_json::Value, serde_json::Error>)
    ensures
        r is Ok <==> json_parses(s@),
{
    serde_json::from_str(s)
}

/// Relies on the variants of `serde_json::Value`: hands back the map of an
/// object value, or the value itself when it is not an object.
#[verifier::external_body]
pub(crate) fn value_into_object(v: serde_json::Value) -> (r: Result<
    serde_json::Map<String, serde_json::Value>,
    serde_json::Value,
>)
    ensures
        r is Ok <==> is_object_of(v),
{
    match v {
        serde_json::Value::Object(m) => Ok(m),
        other => Err(other),
    }
}

/// Relies on the variants of `serde_json::Value`: hands back the elements of
/// an array value, or the value itself when it is not an array.
#[verifier::external_body]
pub(crate) fn value_into_array(v: serde_json::Value) -> (r: Result<
    Vec<serde_json::Value>,
    serde_json::Value,
>)
    ensures
        r is Ok <==> is_array_of(v),
{
    match v {
        serde_json::Value::Array(a) => Ok(a),
        other => Err(other),
    }
}

/// Relies on the variants of `serde_json::Value`: hands back the text of a
/// string value, or the value itself when it is not a string.
#[verifier::external_body]
pub(crate) fn value_into_string(v: serde_json::Value) -> (r: Result<String, serde_json::Value>)
    ensures
        match r {
            Ok(s) => string_of(v) == Some(s@),
            Err(_) => string_of(v) is None,
        },
{
    match v {
        serde_json::Value::String(s) => Ok(s),
        other => Err(other),
    }
}

/// Relies on `serde_json::Value::is_null`.
#[verifier::external_body]
pub(crate) fn value_is_null(v: &serde_json::Value) -> (r: bool)
    ensures
        r == is_null_of(*v),
{
    v.is_null()
}

/// Relies on the variants of `serde_json::Value` and on the `Display` of
/// `serde_json::Number`: the decimal text of a number value.
#[verifier::external_body]
pub(crate) fn value_number_text(v: &serde_json::Value) -> (r: Option<String>)
    ensures
        match r {
            Some(t) => number_text_of(*v) == Some(t@),
            None => number_text_of(*v) is None,
        },
{
    match v {
        serde_json::Value::Number(n) => Some(n.to_string()),
        _ => None,
    }
}

/// Relies on `serde_json::Map`'s owning iterator: the map's entries, each
/// key with its value, in the map's order.
#[verifier::external_body]
pub(crate) fn object_entries(m: serde_json::Map<String, serde_json::Value>) -> (r: Vec<
    (String, serde_json::Value),
>) {
    m.into_iter().collect()
}

} // verus!
