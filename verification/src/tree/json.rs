//! Schema documents in JSON, read by the `serde_json` crate.
//!
//! Nothing in this file is proved: each function states what the parser is
//! relied on to return.
use vstd::prelude::*;
use crate::tree::parse::{Field, Scheme, SchemeView};

verus! {

#[verifier::external_type_specification]
#[verifier::external_body]
pub struct ExJsonValue(serde_json::Value);

/// What `serde_json::from_str::<serde_json::Value>` makes of `text`, as a
/// schema: an object with its fields in the order in which the parsed map hands
/// them out, a string, or anything else; `None` where `text` is no JSON
/// document.
pub uninterp spec fn json_scheme(text: Seq<char>) -> Option<SchemeView>;

/// Copies a parsed JSON value into a schema, one variant for one: an object
/// with the fields that `serde_json::Map::iter` hands out, a string, or
/// `Other` for null, booleans, numbers and arrays.
#[verifier::external_body]
fn scheme_of(value: &serde_json::Value) -> Scheme {
    match value {
        serde_json::Value::Object(map) => Scheme::Object(
            map.iter().map(|(k, v)| Field { name: k.clone(), value: scheme_of(v) }).collect(),
        ),
        serde_json::Value::String(s) => Scheme::Text(s.clone()),
        _ => Scheme::Other,
    }
}

/// Calls `serde_json::from_str::<serde_json::Value>` and copies the value
/// into a schema. The result is a function of `text` alone, named by
/// [`json_scheme`].
#[verifier::external_body]
pub(crate) fn parse_scheme(text: &str) -> (r: Option<Scheme>)
    ensures
        r is Some <==> json_scheme(text@) is Some,
        r matches Some(scheme) ==> json_scheme(text@) == Some(scheme@),
{
    match serde_json::from_str::<serde_json::Value>(text) {
        Ok(value) => Some(scheme_of(&value)),
        Err(_) => None,
    }
}

} // verus!
