//! Arbitrary JSON carried through the library without being inspected.

use vstd::prelude::*;

verus! {

/// `serde_json::Value`, carried as an opaque value.
#[verifier::external_type_specification]
#[verifier::external_body]
pub struct ExJsonValue(serde_json::Value);

/// A copy of `v`.
///
/// Calls the derived `Clone` of `serde_json::Value`, which copies the tree
/// node by node; trusted to give back an equal value.
#[verifier::external_body]
pub(crate) fn clone_json(v: &serde_json::Value) -> (r: serde_json::Value)
    ensures
        r == *v,
{
    v.clone()
}

/// What `serde_json::Value::as_i64` answers for `v`.
pub uninterp spec fn json_i64(v: serde_json::Value) -> Option<i64>;

/// The value `serde_json::Value::Number(n.into())`.
pub uninterp spec fn json_number(n: i64) -> serde_json::Value;

/// The value as an `i64`, when it is an integer that fits.
///
/// Calls `serde_json::Value::as_i64`.
#[verifier::external_body]
pub(crate) fn json_as_i64(v: &serde_json::Value) -> (r: Option<i64>)
    ensures
        r == json_i64(*v),
{
    v.as_i64()
}

/// The JSON number `n`.
///
/// Builds `serde_json::Value::Number` through `From<i64>`; trusted, as the
/// crate's source shows, to read back as `n` through `as_i64`.
#[verifier::external_body]
pub(crate) fn json_from_i64(n: i64) -> (r: serde_json::Value)
    ensures
        r == json_number(n),
        json_i64(r) == Some(n),
{
    serde_json::Value::Number(n.into())
}

} // verus!
