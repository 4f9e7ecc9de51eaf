//! HTML title extraction, delegated to an HTML parser.
use vstd::prelude::*;

verus! {

/// The inner HTML of the first `<title>` element of a document, if
/// any. It depends on the document text alone.
pub uninterp spec fn title_of(html: Seq<char>) -> Option<Seq<char>>;

/// Relies on scraper's HTML parsing and selection: parse the document
/// and return the first `<title>` element's inner HTML.
#[verifier::external_body]
pub fn extract_title(html: &str) -> (r: Option<String>)
    ensures
        match r {
            Some(t) => title_of(html@) == Some(t@),
            None => title_of(html@) is None,
        },
{
    let document = scraper::Html::parse_document(html);
    let selector = scraper::Selector::parse("title").ok()?;
    document.select(&selector).next().map(|t| t.inner_html())
}

} // verus!
