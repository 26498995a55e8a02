//! JSON as it is stored: text.
use vstd::prelude::*;

verus! {

/// The text that `serde_json` prints for the value a text holds; nothing, where
/// the text holds no JSON.
pub uninterp spec fn reprinted(text: Seq<char>) -> Option<Seq<char>>;

/// The text of the value that a stored text holds, in the one form such texts are
/// compared in; nothing, where it holds no JSON.
///
/// Calls `serde_json::from_str` and prints the `serde_json::Value` it returns.
/// Believed of the two: whether the text is JSON, and what is printed for it,
/// depend on the text alone.
#[verifier::external_body]
pub(crate) fn canonical_json(text: &str) -> (r: Option<String>)
    ensures
        r.deep_view() == reprinted(text@),
{
    match serde_json::from_str::<serde_json::Value>(text) {
        Ok(value) => Some(value.to_string()),
        Err(_) => None,
    }
}

/// Whether a printed value is an object.
pub open spec fn prints_object(text: Seq<char>) -> bool {
    "{"@.is_prefix_of(text)
}

} // verus!
