//! The open-ended metadata payload attached to sections.
//!
//! Metadata is an arbitrary JSON value, opaque to this crate: it is carried
//! through the event protocol unchanged and compared structurally, but never
//! inspected.

use vstd::prelude::*;

verus! {

#[verifier::external_type_specification]
#[verifier::external_body]
pub struct ExValue(serde_json::Value);

/// Relies on `serde_json::Value::clone` (a derived `Clone`): the clone is
/// structurally equal to the original value, and `Value`'s `PartialEq` is
/// structural.
#[verifier::external_body]
fn clone_value(v: &serde_json::Value) -> (r: serde_json::Value)
    ensures
        r == *v,
{
    v.clone()
}

/// An equal copy of an optional metadata value.
pub(crate) fn clone_metadata(m: &Option<serde_json::Value>) -> (r: Option<
    serde_json::Value,
>)
    ensures
        r == *m,
{
    match m {
        Some(v) => Some(clone_value(v)),
        None => None,
    }
}

} // verus!
