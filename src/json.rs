use vstd::prelude::*;

verus! {

/// serde_json's dynamically typed JSON value, carried through unchanged as
/// the value of a fixed metadata field.
#[verifier::external_type_specification]
#[verifier::external_body]
pub struct ExValue(serde_json::Value);

/// Relies on the derived `Clone` of `serde_json::Value`: the copy is the same
/// JSON value.
pub assume_specification[ <serde_json::Value as Clone>::clone ](v: &serde_json::Value) -> (r:
    serde_json::Value)
    ensures
        r == *v,
;

} // verus!
