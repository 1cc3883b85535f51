//! Trusted view of the parts of `serde_json` that identity extraction
//! reads: the `$id` member of a document's top-level object, and the
//! character content of a string value.

use vstd::prelude::*;

verus! {

#[verifier::external_type_specification]
#[verifier::external_body]
pub struct ExValue(serde_json::Value);

/// The value stored under the key `$id` in the document's top-level
/// object, or nothing when the document is not an object or has no such
/// member. The result is a function of the document alone.
pub uninterp spec fn spec_id_field(v: serde_json::Value) -> Option<serde_json::Value>;

/// The character content of a JSON string value, or nothing when the
/// value is of any other JSON type. The result is a function of the value
/// alone.
pub uninterp spec fn spec_string_content(v: serde_json::Value) -> Option<Seq<char>>;

/// Relies on `serde_json::Value::get` with a string index: it returns the
/// member stored under that key when the value is an object holding one,
/// and `None` otherwise.
#[verifier::external_body]
pub(crate) fn id_field<'a>(v: &'a serde_json::Value) -> (r: Option<&'a serde_json::Value>)
    ensures
        match r {
            Some(f) => spec_id_field(*v) == Some(*f),
            None => spec_id_field(*v) is None,
        },
{
    v.get("$id")
}

/// Relies on `serde_json::Value::as_str`: it returns the borrowed string
/// content when the value is a JSON string, and `None` otherwise.
#[verifier::external_body]
pub(crate) fn string_content<'a>(v: &'a serde_json::Value) -> (r: Option<&'a str>)
    ensures
        match r {
            Some(s) => spec_string_content(*v) == Some(s@),
            None => spec_string_content(*v) is None,
        },
{
    v.as_str()
}

} // verus!
