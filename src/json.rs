//! Reading the response bodies of the remote service, which are JSON
//! documents. The parsing itself is serde_json's; what it yields is named
//! here as a function of the body text and of the JSON Pointers that the
//! cascade asks for.
use vstd::prelude::*;

verus! {

/// The string that the JSON document written as `text` holds at the JSON
/// Pointer `pointer`; `None` where `text` is no JSON document or where no
/// string stands at `pointer`.
pub uninterp spec fn json_string_at(text: Seq<char>, pointer: Seq<char>) -> Option<Seq<char>>;

/// For the JSON document written as `text`: one entry for each element of the
/// array at the JSON Pointer `array`, in order, holding the string that the
/// element holds at the JSON Pointer `field` (`None` where it holds none);
/// `None` as a whole where `text` is no JSON document or no array stands at
/// `array`.
pub uninterp spec fn json_strings_in(
    text: Seq<char>,
    array: Seq<char>,
    field: Seq<char>,
) -> Option<Seq<Option<Seq<char>>>>;

/// Relies on `serde_json::from_str` into a `serde_json::Value`, then
/// `Value::pointer` and `Value::as_str`: the string at `pointer`, if the text
/// parses and a string stands there.
#[verifier::external_body]
pub(crate) fn string_at(text: &str, pointer: &str) -> (r: Option<String>)
    ensures
        r.deep_view() == json_string_at(text@, pointer@),
{
    let doc: serde_json::Value = serde_json::from_str(text).ok()?;
    doc.pointer(pointer)?.as_str().map(|s| s.to_string())
}

/// Relies on `serde_json::from_str` into a `serde_json::Value`, then
/// `Value::pointer` and `Value::as_array` for the array, and `Value::pointer`
/// and `Value::as_str` on each of its elements.
#[verifier::external_body]
pub(crate) fn strings_in(text: &str, array: &str, field: &str) -> (r: Option<Vec<Option<String>>>)
    ensures
        r.deep_view() == json_strings_in(text@, array@, field@),
{
    let doc: serde_json::Value = serde_json::from_str(text).ok()?;
    let items = doc.pointer(array)?.as_array()?;
    Some(items.iter().map(|item| item.pointer(field).and_then(|v| v.as_str()).map(|s| s.to_string())).collect())
}

} // verus!
