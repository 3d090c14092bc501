//! Queries on HTML fragments, answered by the `scraper` crate.
use scraper::{Html, Selector};
use vstd::prelude::*;

verus! {

/// Text content (all descendant text, in document order) of the first
/// element of the HTML fragment `html` that matches the CSS selector
/// `selector`; `None` when no element matches or `selector` does not parse.
pub uninterp spec fn fragment_first_text(html: Seq<char>, selector: Seq<char>) -> Option<Seq<char>>;

/// Value of the attribute `attr` on the first element of the HTML fragment
/// `html` that matches the CSS selector `selector`: `None` when no element
/// matches or `selector` does not parse, `Some(None)` when that element has
/// no such attribute.
pub uninterp spec fn fragment_first_attr(
    html: Seq<char>,
    selector: Seq<char>,
    attr: Seq<char>,
) -> Option<Option<Seq<char>>>;

/// Parses `html` with `scraper::Html::parse_fragment`, selects with
/// `scraper::Selector::parse(selector)` and collects `ElementRef::text` of
/// the first match. Trusted: that the result is `fragment_first_text` of
/// the two arguments, a name for what scraper computes; nothing more is
/// claimed about HTML parsing or selector matching.
#[verifier::external_body]
pub(crate) fn first_text(html: &str, selector: &str) -> (r: Option<String>)
    ensures
        r.deep_view() == fragment_first_text(html@, selector@),
{
    let sel = match Selector::parse(selector) {
        Ok(s) => s,
        Err(_) => return None,
    };
    let doc = Html::parse_fragment(html);
    let first = doc.select(&sel).next();
    match first {
        Some(e) => Some(e.text().collect::<String>()),
        None => None,
    }
}

/// Parses `html` with `scraper::Html::parse_fragment`, selects with
/// `scraper::Selector::parse(selector)` and reads `ElementRef::attr(attr)`
/// of the first match. Trusted: that the result is `fragment_first_attr`
/// of the three arguments, a name for what scraper computes.
#[verifier::external_body]
pub(crate) fn first_attr(html: &str, selector: &str, attr: &str) -> (r: Option<Option<String>>)
    ensures
        r.deep_view() == fragment_first_attr(html@, selector@, attr@),
{
    let sel = match Selector::parse(selector) {
        Ok(s) => s,
        Err(_) => return None,
    };
    let doc = Html::parse_fragment(html);
    let first = doc.select(&sel).next();
    match first {
        Some(e) => Some(e.attr(attr).map(String::from)),
        None => None,
    }
}

} // verus!
