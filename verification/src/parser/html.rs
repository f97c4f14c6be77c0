//! The calls into `scraper` that the page parsers make.
//!
//! A page is its source text; an element of it is named by the source and
//! the selections that reach it from the document: the `k`-th match of the
//! first pattern, then the `j`-th match of the next pattern inside it, and so
//! on. What a selection finds, an element's text and its attributes are named
//! over those plain values, since the parse of a page and the matching of a
//! selector depend on nothing else. The types below keep their fields
//! private and are only made by the functions of this file, so the source
//! and the selections in a value are always the ones it was made from.
use vstd::prelude::*;

use scraper::{ElementRef, Html, Selector};

use super::{opt_view, piece_views};

verus! {

#[verifier::external_type_specification]
#[verifier::external_body]
pub struct ExHtml(Html);

#[verifier::external_type_specification]
#[verifier::external_body]
pub struct ExSelector(Selector);

#[verifier::external_type_specification]
#[verifier::external_body]
pub struct ExElementRef<'a>(ElementRef<'a>);

/// A parsed page; its view is the source text it was parsed from.
pub struct Page {
    doc: Html,
    source: Ghost<Seq<char>>,
}

impl View for Page {
    type V = Seq<char>;

    closed spec fn view(&self) -> Seq<char> {
        self.source@
    }
}

/// A parsed selector; its view is the pattern it was parsed from.
pub struct Pattern {
    selector: Selector,
    text: Ghost<Seq<char>>,
}

impl View for Pattern {
    type V = Seq<char>;

    closed spec fn view(&self) -> Seq<char> {
        self.text@
    }
}

/// An element of a page; its view is the page's source and the selections
/// (pattern and index) that reach it from the document.
pub struct Element<'a> {
    element: ElementRef<'a>,
    source: Ghost<Seq<char>>,
    path: Ghost<Seq<(Seq<char>, int)>>,
}

impl<'a> View for Element<'a> {
    type V = (Seq<char>, Seq<(Seq<char>, int)>);

    closed spec fn view(&self) -> (Seq<char>, Seq<(Seq<char>, int)>) {
        (self.source@, self.path@)
    }
}

/// Whether `Selector::parse` accepts a pattern: CSS selector syntax as the
/// `selectors` crate reads it, a matter of the pattern alone.
pub uninterp spec fn css_selector_parses(pattern: Seq<char>) -> bool;

/// How many elements `Html::select` finds in the document parsed from
/// `source` for the selector parsed from `pattern`.
pub uninterp spec fn document_selection_len(source: Seq<char>, pattern: Seq<char>) -> nat;

/// How many elements `ElementRef::select` finds under the element that
/// `path` reaches in the document parsed from `source`.
pub uninterp spec fn element_selection_len(
    source: Seq<char>,
    path: Seq<(Seq<char>, int)>,
    pattern: Seq<char>,
) -> nat;

/// The text nodes that `ElementRef::text` gives of the element that `path`
/// reaches, in document order.
pub uninterp spec fn element_text_pieces(source: Seq<char>, path: Seq<(Seq<char>, int)>) -> Seq<
    Seq<char>,
>;

/// What `ElementRef::attr` gives for the attribute `name` of the element
/// that `path` reaches.
pub uninterp spec fn element_attribute(
    source: Seq<char>,
    path: Seq<(Seq<char>, int)>,
    name: Seq<char>,
) -> Option<Seq<char>>;

/// `Html::parse_document`: the page parsed from `html`.
#[verifier::external_body]
pub(crate) fn read_page(html: &str) -> (r: Page)
    ensures
        r@ == html@,
{
    Page { doc: Html::parse_document(html), source: Ghost(html@) }
}

/// `Selector::parse`, `None` where the pattern is not a selector.
#[verifier::external_body]
pub(crate) fn parse_selector(pattern: &str) -> (r: Option<Pattern>)
    ensures
        r is Some <==> css_selector_parses(pattern@),
        r matches Some(p) ==> p@ == pattern@,
{
    match Selector::parse(pattern) {
        Ok(selector) => Some(Pattern { selector, text: Ghost(pattern@) }),
        Err(_) => None,
    }
}

/// `Html::select`: the matching elements of the document, in document order;
/// the `k`-th is reached by the selection `(pattern, k)`.
#[verifier::external_body]
pub(crate) fn select_document<'a>(page: &'a Page, pattern: &Pattern) -> (r: Vec<Element<'a>>)
    ensures
        r@.len() == document_selection_len(page@, pattern@),
        forall|k: int|
            0 <= k < r@.len() ==> #[trigger] r@[k]@ == (page@, seq![(pattern@, k)]),
{
    page.doc.select(&pattern.selector).enumerate().map(
        |(k, element)|
            Element { element, source: Ghost(page.source@), path: Ghost(seq![(pattern.text@, k as int)]) },
    ).collect()
}

/// `ElementRef::select`: the matching descendants, in document order; the
/// `k`-th is reached by the element's selections and then `(pattern, k)`.
#[verifier::external_body]
pub(crate) fn select_within<'a>(element: &Element<'a>, pattern: &Pattern) -> (r: Vec<Element<'a>>)
    ensures
        r@.len() == element_selection_len(element@.0, element@.1, pattern@),
        forall|k: int|
            0 <= k < r@.len() ==> #[trigger] r@[k]@ == (element@.0, element@.1.push((pattern@, k))),
{
    element.element.select(&pattern.selector).enumerate().map(
        |(k, found)|
            Element {
                element: found,
                source: Ghost(element.source@),
                path: Ghost(element.path@.push((pattern.text@, k as int))),
            },
    ).collect()
}

/// `ElementRef::text`: the element's text nodes, in document order.
#[verifier::external_body]
pub(crate) fn text_pieces<'a>(element: &Element<'a>) -> (r: Vec<&'a str>)
    ensures
        piece_views(r@) == element_text_pieces(element@.0, element@.1),
{
    element.element.text().collect()
}

/// `ElementRef::attr`: the value of an attribute, if the element has it.
#[verifier::external_body]
pub(crate) fn attr<'a>(element: &Element<'a>, name: &str) -> (r: Option<&'a str>)
    ensures
        opt_view(r) == element_attribute(element@.0, element@.1, name@),
{
    element.element.attr(name)
}

} // verus!
