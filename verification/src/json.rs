//! Reading and writing JSON through `serde_json`.
use crate::text::text_of;
use vstd::prelude::*;

verus! {

/// The string that stands in the JSON document `document` at the JSON pointer
/// `pointer`, as `serde_json` reads it: nothing when the document does not
/// parse, when nothing stands there, or when what stands there is no string.
pub uninterp spec fn json_text_at(document: Seq<char>, pointer: Seq<char>) -> Option<Seq<char>>;

/// The unsigned 64-bit number that stands in the JSON document `document` at
/// the JSON pointer `pointer`, as `serde_json` reads it.
pub uninterp spec fn json_number_at(document: Seq<char>, pointer: Seq<char>) -> Option<u64>;

/// `serde_json::from_str` into a `Value`, then `Value::pointer` and
/// `Value::as_str`: the string is a function of the document and the pointer.
#[verifier::external_body]
pub(crate) fn text_at(document: &str, pointer: &str) -> (r: Option<String>)
    ensures
        text_of(r) == json_text_at(document@, pointer@),
{
    let value: serde_json::Value = serde_json::from_str(document).ok()?;
    Some(value.pointer(pointer)?.as_str()?.to_string())
}

/// `serde_json::from_str` into a `Value`, then `Value::pointer` and
/// `Value::as_u64`: the number is a function of the document and the pointer.
#[verifier::external_body]
pub(crate) fn number_at(document: &str, pointer: &str) -> (r: Option<u64>)
    ensures
        r == json_number_at(document@, pointer@),
{
    let value: serde_json::Value = serde_json::from_str(document).ok()?;
    value.pointer(pointer)?.as_u64()
}

} // verus!
