//! The extractor: find a price in an HTML document by a CSS selector.
//! Parsing the document and matching the selector is done by the `scraper`
//! crate behind trusted wrappers; choosing among the matched elements,
//! joining their text and trimming it is verified here.
use vstd::prelude::*;
use vstd::string::StringExecFns;

use crate::text::concat_all;
use crate::text::join_all;
use crate::text::trim_str;
use crate::text::trimmed;

verus! {

/// Whether the text is a valid CSS selector group, a function of the text
/// alone.
pub uninterp spec fn selector_ok(sel: Seq<char>) -> bool;

/// Relies on scraper's `Selector::parse`: whether the text parses as a CSS
/// selector group depends on the text alone.
#[verifier::external_body]
pub fn selector_is_valid(sel: &str) -> (r: bool)
    ensures
        r == selector_ok(sel@),
{
    scraper::Selector::parse(sel).is_ok()
}

/// For each element of the document that matches the selector, in document
/// order: the list of the element's descendant text nodes, in order. A
/// function of the document text and the selector text alone.
pub uninterp spec fn selected_texts(html: Seq<char>, sel: Seq<char>) -> Seq<Seq<Seq<char>>>;

/// Relies on scraper's `Selector::parse`, `Html::parse_document`,
/// `Html::select` and `ElementRef::text`: the elements matching the
/// selector, in document order, each as the list of its descendant text
/// nodes. Parsing and matching depend on the two texts alone.
#[verifier::external_body]
fn select_texts(html: &str, sel: &str) -> (r: Vec<Vec<String>>)
    requires
        selector_ok(sel@),
    ensures
        r.deep_view() == selected_texts(html@, sel@),
{
    let selector = match scraper::Selector::parse(sel) {
        Ok(s) => s,
        Err(_) => return Vec::new(),
    };
    let document = scraper::Html::parse_document(html);
    document.select(&selector).map(|el| el.text().map(|t| t.to_string()).collect()).collect()
}

/// The extracted price: the joined text of the first matched element whose
/// joined text is non-empty, with surrounding whitespace removed; the empty
/// sequence when no element matches or every match has empty text.
pub open spec fn first_price(els: Seq<Seq<Seq<char>>>) -> Seq<char>
    decreases els.len(),
{
    if els.len() == 0 {
        Seq::empty()
    } else if concat_all(els.first()).len() > 0 {
        trimmed(concat_all(els.first()))
    } else {
        first_price(els.drop_first())
    }
}

/// The price that the document yields under the selector.
pub open spec fn extracted_price(html: Seq<char>, sel: Seq<char>) -> Seq<char> {
    first_price(selected_texts(html, sel))
}

/// Extracts the price from an HTML document, as `extracted_price`
/// describes: the same document and selector always yield the same price,
/// and a document with no matching element yields the empty string rather
/// than an error.
pub fn extract_price(html: &str, sel: &str) -> (r: String)
    requires
        selector_ok(sel@),
    ensures
        r@ == extracted_price(html@, sel@),
{
    let els = select_texts(html, sel);
    let ghost dv = els.deep_view();
    let n = els.len();
    proof {
        assert(dv.len() == els@.len());
        assert(dv.subrange(0, n as int) =~= dv);
    }
    let mut i: usize = 0;
    while i < n
        invariant
            dv == els.deep_view(),
            dv == selected_texts(html@, sel@),
            n == els@.len(),
            dv.len() == n,
            0 <= i <= n,
            first_price(dv) == first_price(dv.subrange(i as int, n as int)),
        decreases n - i,
    {
        proof {
            assert(dv[i as int] == els@[i as int].deep_view());
        }
        let joined = join_all(&els[i]);
        proof {
            let cur = dv.subrange(i as int, n as int);
            assert(cur.first() == dv[i as int]);
            assert(cur.drop_first() =~= dv.subrange(i + 1, n as int));
        }
        if !joined.as_str().is_empty() {
            let out = String::from_str(trim_str(joined.as_str()));
            proof {
                assert(out@ == trimmed(concat_all(dv[i as int])));
            }
            return out;
        }
        i = i + 1;
    }
    proof {
        assert(dv.subrange(n as int, n as int).len() == 0);
    }
    String::new()
}

/// Extracts like `extract_price` after checking the selector itself:
/// `None` exactly when the selector text is not a valid CSS selector.
pub fn scrape(html: &str, sel: &str) -> (r: Option<String>)
    ensures
        r is None <==> !selector_ok(sel@),
        r matches Some(p) ==> p@ == extracted_price(html@, sel@),
{
    if selector_is_valid(sel) {
        Some(extract_price(html, sel))
    } else {
        None
    }
}

} // verus!
