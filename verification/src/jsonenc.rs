//! JSON string quoting, as the structured line-delimited output needs
//! it.
use vstd::prelude::*;

verus! {

/// The JSON string literal for a text: quoted and escaped exactly as
/// serde_json writes it. It depends on the characters alone.
pub uninterp spec fn json_quoted(s: Seq<char>) -> Seq<char>;

/// Relies on serde_json::to_string on a `&str`: the quoted, escaped
/// JSON string literal for the text (string serialization cannot fail).
#[verifier::external_body]
pub(crate) fn json_quote(s: &str) -> (r: String)
    ensures
        r@ == json_quoted(s@),
{
    match serde_json::to_string(s) {
        Ok(q) => q,
        Err(_) => String::new(),
    }
}

} // verus!
