//! Trusted boundary to serde_json's dynamic JSON value.
//!
//! The value itself is opaque to verification: the library only decides when
//! to parse, which region of a message to parse, and how a one-element array
//! is collapsed; serde_json does the parsing.

use vstd::prelude::*;

verus! {

/// serde_json's dynamic JSON value, declared so it can appear in signatures;
/// its contents stay opaque.
#[verifier::external_type_specification]
#[verifier::external_body]
pub struct ExValue(serde_json::Value);

/// Whether serde_json accepts the text as one JSON document; acceptance is a
/// function of the text alone.
pub uninterp spec fn spec_json_parses(s: Seq<char>) -> bool;

/// Relies on serde_json::from_str: parses the text into a JSON value,
/// succeeding exactly when the text is one valid JSON document.
#[verifier::external_body]
pub fn parse_json(s: &str) -> (r: Option<serde_json::Value>)
    ensures
        r is Some <==> spec_json_parses(s@),
{
    serde_json::from_str(s).ok()
}

/// Relies on serde_json::Value::as_array: a borrow of the elements when the
/// value is an array, nothing otherwise.
#[verifier::external_body]
pub fn json_as_array(v: &serde_json::Value) -> Option<&Vec<serde_json::Value>> {
    v.as_array()
}

/// Relies on serde_json::Value::get_mut: a borrow of the element at the
/// index when the value is an array at least that long, nothing otherwise.
#[verifier::external_body]
pub fn json_get_mut(v: &mut serde_json::Value, index: usize) -> Option<&mut serde_json::Value> {
    v.get_mut(index)
}

/// Relies on serde_json::Value::take: the value, moved out and replaced by
/// JSON null.
#[verifier::external_body]
pub fn json_take(v: &mut serde_json::Value) -> serde_json::Value {
    v.take()
}

} // verus!
