//! Trusted access to JSON values, specified over a modelled tree. Gateway
//! frames and REST responses arrive as JSON text; serde_json parses the
//! text and hands back an opaque tree. The model below names what that
//! tree holds — a function of the text alone — so the verified decoders on
//! top of these wrappers can state exactly what they return.

use vstd::prelude::*;

verus! {

#[verifier::external_type_specification]
#[verifier::external_body]
pub struct ExValue(serde_json::Value);

/// The mathematical content of a JSON value. A number is modelled by its
/// integer readings, which is all the accessors below reveal of one: a
/// number outside both integer ranges reads as nothing either way.
#[verifier::ext_equal]
pub enum JsonV {
    Null,
    Bool(bool),
    Num { as_u64: Option<u64>, as_i64: Option<i64> },
    Text(Seq<char>),
    Array(Seq<JsonV>),
    Object(Map<Seq<char>, JsonV>),
}

/// The content of the tree a JSON text parses to, or nothing where the
/// text does not parse. Relies on serde_json::from_str::<Value>: the
/// outcome depends on the text alone.
pub uninterp spec fn json_doc_of(s: Seq<char>) -> Option<JsonV>;

/// The content of one parsed JSON value. Relies on serde_json::Value: a
/// value's content is fixed when it is built and never changes.
pub uninterp spec fn json_node_of(v: serde_json::Value) -> JsonV;

/// The member under a key, for an object that has it.
pub open spec fn json_field(j: JsonV, key: Seq<char>) -> Option<JsonV> {
    match j {
        JsonV::Object(m) => if m.dom().contains(key) {
            Some(m[key])
        } else {
            None
        },
        _ => None,
    }
}

/// The unsigned-integer reading of a value, for a number that has one.
pub open spec fn json_u64_of(j: JsonV) -> Option<u64> {
    match j {
        JsonV::Num { as_u64, .. } => as_u64,
        _ => None,
    }
}

/// The signed-integer reading of a value, for a number that has one.
pub open spec fn json_i64_of(j: JsonV) -> Option<i64> {
    match j {
        JsonV::Num { as_i64, .. } => as_i64,
        _ => None,
    }
}

/// The boolean a value holds, if it is one.
pub open spec fn json_bool_of(j: JsonV) -> Option<bool> {
    match j {
        JsonV::Bool(b) => Some(b),
        _ => None,
    }
}

/// The text a value holds, if it is a string.
pub open spec fn json_text_of(j: JsonV) -> Option<Seq<char>> {
    match j {
        JsonV::Text(t) => Some(t),
        _ => None,
    }
}

/// The elements a value holds, if it is an array.
pub open spec fn json_elems_of(j: JsonV) -> Option<Seq<JsonV>> {
    match j {
        JsonV::Array(elems) => Some(elems),
        _ => None,
    }
}

/// The content of each value in a sequence.
pub open spec fn json_nodes_of(items: Seq<serde_json::Value>) -> Seq<JsonV> {
    items.map_values(|v: serde_json::Value| json_node_of(v))
}

/// Relies on serde_json::from_str::<Value>: parses JSON text into a value
/// tree holding the text's content, or nothing if the text is not JSON.
#[verifier::external_body]
pub(crate) fn json_parse(s: &str) -> (r: Option<serde_json::Value>)
    ensures
        r matches Some(v) ==> json_doc_of(s@) == Some(json_node_of(v)),
        r is None ==> json_doc_of(s@) is None,
{
    serde_json::from_str(s).ok()
}

/// Relies on serde_json::Value::get: the member under this key, present
/// exactly when the value is an object with such a key.
#[verifier::external_body]
pub(crate) fn json_get<'a>(v: &'a serde_json::Value, key: &str) -> (r: Option<
    &'a serde_json::Value,
>)
    ensures
        r matches Some(f) ==> json_field(json_node_of(*v), key@) == Some(json_node_of(*f)),
        r is None ==> json_field(json_node_of(*v), key@) is None,
{
    v.get(key)
}

/// Relies on serde_json::Value::as_u64: the unsigned-integer reading of a
/// number.
#[verifier::external_body]
pub(crate) fn json_as_u64(v: &serde_json::Value) -> (r: Option<u64>)
    ensures
        r == json_u64_of(json_node_of(*v)),
{
    v.as_u64()
}

/// Relies on serde_json::Value::as_i64: the signed-integer reading of a
/// number.
#[verifier::external_body]
pub(crate) fn json_as_i64(v: &serde_json::Value) -> (r: Option<i64>)
    ensures
        r == json_i64_of(json_node_of(*v)),
{
    v.as_i64()
}

/// Relies on serde_json::Value::as_bool: the boolean the value holds, if
/// it is one.
#[verifier::external_body]
pub(crate) fn json_as_bool(v: &serde_json::Value) -> (r: Option<bool>)
    ensures
        r == json_bool_of(json_node_of(*v)),
{
    v.as_bool()
}

/// Relies on serde_json::Value::as_str: the text the value holds, if it is
/// a string (owned; the copy keeps the characters).
#[verifier::external_body]
pub(crate) fn json_as_string(v: &serde_json::Value) -> (r: Option<String>)
    ensures
        r matches Some(t) ==> json_text_of(json_node_of(*v)) == Some(t@),
        r is None ==> json_text_of(json_node_of(*v)) is None,
{
    v.as_str().map(|s| s.to_string())
}

/// Relies on serde_json::Value::as_array: the value's elements, if it is
/// an array (cloned; a clone keeps each element's content).
#[verifier::external_body]
pub(crate) fn json_array(v: &serde_json::Value) -> (r: Option<Vec<serde_json::Value>>)
    ensures
        r matches Some(items) ==> json_elems_of(json_node_of(*v)) == Some(json_nodes_of(items@)),
        r is None ==> json_elems_of(json_node_of(*v)) is None,
{
    v.as_array().cloned()
}

} // verus!
