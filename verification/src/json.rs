//! JSON values, which tasks and entry metadata are made of.

use vstd::prelude::*;

verus! {

/// A JSON value. Its content is not looked into here.
#[verifier::external_type_specification]
#[verifier::external_body]
pub struct ExJsonValue(serde_json::Value);

/// `Clone::clone` of `serde_json::Value`, which the crate derives. Trusted:
/// the copy equals the value that was copied.
pub assume_specification[ <serde_json::Value as Clone>::clone ](
    value: &serde_json::Value,
) -> (copy: serde_json::Value)
    ensures
        copy == *value,
;

/// The text of a JSON value: what `to_string` returns for it, the value
/// written as compact JSON.
pub uninterp spec fn json_text(value: serde_json::Value) -> Seq<char>;

/// Calls `to_string` on a `serde_json::Value`. Trusted: the text depends on
/// the value alone.
#[verifier::external_body]
pub(crate) fn serialized(value: &serde_json::Value) -> (text: String)
    ensures
        text@ == json_text(*value),
{
    value.to_string()
}

/// Builds the empty JSON object from `serde_json::Map::new` and
/// `serde_json::Value::Object`. Nothing is claimed of the value.
#[verifier::external_body]
pub(crate) fn empty_object() -> (value: serde_json::Value) {
    serde_json::Value::Object(serde_json::Map::new())
}

} // verus!
