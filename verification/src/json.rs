//! Reading JSON documents.

use vstd::prelude::*;

verus! {

/// What a JSON reader finds under the name `key` in the document that `text`
/// holds: nothing, if `text` is no JSON document; otherwise the text of the
/// member named `key`, if the document is an object with such a member and
/// the member is a string.
pub uninterp spec fn json_string_member(text: Seq<char>, key: Seq<char>) -> Option<
    Option<Seq<char>>,
>;

/// Reads the string member named `key` of the JSON document in `text`.
///
/// Calls `serde_json::from_str` for a `serde_json::Value` and looks the
/// member up with `Value::get`. The contract gives the result a name and
/// claims nothing else of it: the same text and key always read the same.
#[verifier::external_body]
pub(crate) fn read_string_member(text: &str, key: &str) -> (found: Option<Option<String>>)
    ensures
        found.deep_view() == json_string_member(text@, key@),
{
    let document: serde_json::Value = match serde_json::from_str(text) {
        Ok(document) => document,
        Err(_) => return None,
    };
    match document.get(key) {
        Some(serde_json::Value::String(member)) => Some(Some(member.clone())),
        _ => Some(None),
    }
}

} // verus!
