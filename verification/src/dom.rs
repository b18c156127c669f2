//! HTML documents and CSS selectors, through the `scraper` crate.
use scraper::{ElementRef, Html, Selector};
use vstd::prelude::*;

verus! {

/// What the logic reads of an HTML element: its inner HTML, its text (all
/// descendant text nodes, in order) and the value of one attribute.
pub struct Element {
    pub inner_html: String,
    pub text: String,
    pub attr: Option<String>,
}

pub struct ElementView {
    pub inner_html: Seq<char>,
    pub text: Seq<char>,
    pub attr: Option<Seq<char>>,
}

impl View for Element {
    type V = ElementView;

    open spec fn view(&self) -> ElementView {
        ElementView {
            inner_html: self.inner_html@,
            text: self.text@,
            attr: match self.attr {
                Some(a) => Some(a@),
                None => None,
            },
        }
    }
}

pub open spec fn elements_view(v: Vec<Element>) -> Seq<ElementView> {
    v@.map_values(|e: Element| e@)
}

/// `Html::parse_document(html)`, then the first element that `css` selects,
/// read with the attribute `attr`. `None` when `css` does not parse,
/// `Some(None)` when nothing matches.
pub uninterp spec fn html_select_first(html: Seq<char>, css: Seq<char>, attr: Seq<char>) -> Option<
    Option<ElementView>,
>;

/// As `html_select_first`: the first element that `css` selects, then its
/// descendants that `child_css` selects, in document order.
pub uninterp spec fn html_select_within_first(
    html: Seq<char>,
    css: Seq<char>,
    child_css: Seq<char>,
    attr: Seq<char>,
) -> Option<Option<(ElementView, Seq<ElementView>)>>;

/// As `html_select_within_first`, then for each selected descendant its own
/// descendants that `grand_css` selects and those that `other_css` selects.
pub uninterp spec fn html_select_nested_within_first(
    html: Seq<char>,
    css: Seq<char>,
    child_css: Seq<char>,
    grand_css: Seq<char>,
    other_css: Seq<char>,
    attr: Seq<char>,
) -> Option<Option<Seq<(ElementView, Seq<ElementView>, Seq<ElementView>)>>>;

pub open spec fn first_view(r: Option<Option<Element>>) -> Option<Option<ElementView>> {
    match r {
        None => None,
        Some(None) => Some(None),
        Some(Some(e)) => Some(Some(e@)),
    }
}

pub open spec fn within_view(r: Option<Option<(Element, Vec<Element>)>>) -> Option<
    Option<(ElementView, Seq<ElementView>)>,
> {
    match r {
        None => None,
        Some(None) => Some(None),
        Some(Some((e, v))) => Some(Some((e@, elements_view(v)))),
    }
}

pub open spec fn child_view(c: (Element, Vec<Element>, Vec<Element>)) -> (
    ElementView,
    Seq<ElementView>,
    Seq<ElementView>,
) {
    (c.0@, elements_view(c.1), elements_view(c.2))
}

pub open spec fn nested_view(r: Option<Option<Vec<(Element, Vec<Element>, Vec<Element>)>>>) -> Option<
    Option<Seq<(ElementView, Seq<ElementView>, Seq<ElementView>)>>,
> {
    match r {
        None => None,
        Some(None) => Some(None),
        Some(Some(v)) => Some(
            Some(v@.map_values(|c: (Element, Vec<Element>, Vec<Element>)| child_view(c))),
        ),
    }
}

/// Calls `Selector::parse`, `Html::parse_document`, `Html::select`
/// and reads the first match with `inner_html`, `text` and `attr`. Trusted to
/// give `html_select_first(html, css, attr)`.
#[verifier::external_body]
pub(crate) fn select_first(html: &str, css: &str, attr: &str) -> (r: Option<Option<Element>>)
    ensures
        first_view(r) == html_select_first(html@, css@, attr@),
{
    let sel = Selector::parse(css).ok()?;
    let doc = Html::parse_document(html);
    let first = doc.select(&sel).next();
    Some(first.map(|e| Element {
        inner_html: e.inner_html(),
        text: e.text().collect(),
        attr: e.attr(attr).map(|a| a.to_string()),
    }))
}

/// As `select_first`, then `ElementRef::select` with `child_css` on the
/// first match. Trusted to give `html_select_within_first`.
#[verifier::external_body]
pub(crate) fn select_within_first(html: &str, css: &str, child_css: &str, attr: &str) -> (r: Option<
    Option<(Element, Vec<Element>)>,
>)
    ensures
        within_view(r) == html_select_within_first(html@, css@, child_css@, attr@),
{
    let (sel, child) = (Selector::parse(css).ok()?, Selector::parse(child_css).ok()?);
    let doc = Html::parse_document(html);
    let el = |e: ElementRef| Element {
        inner_html: e.inner_html(),
        text: e.text().collect(),
        attr: e.attr(attr).map(|a| a.to_string()),
    };
    Some(doc.select(&sel).next().map(|f| (el(f), f.select(&child).map(el).collect())))
}

/// As `select_within_first`, then `ElementRef::select` with `grand_css` and
/// with `other_css` on each selected descendant. Trusted to give
/// `html_select_nested_within_first`.
#[verifier::external_body]
pub(crate) fn select_nested_within_first(
    html: &str,
    css: &str,
    child_css: &str,
    grand_css: &str,
    other_css: &str,
    attr: &str,
) -> (r: Option<Option<Vec<(Element, Vec<Element>, Vec<Element>)>>>)
    ensures
        nested_view(r) == html_select_nested_within_first(html@, css@, child_css@, grand_css@, other_css@, attr@),
{
    let s = |c: &str| Selector::parse(c).ok();
    let (outer, child, grand, other) = (s(css)?, s(child_css)?, s(grand_css)?, s(other_css)?);
    let doc = Html::parse_document(html);
    let el = |e: ElementRef| Element {
        inner_html: e.inner_html(),
        text: e.text().collect(),
        attr: e.attr(attr).map(|a| a.to_string()),
    };
    Some(doc.select(&outer).next().map(|f| f.select(&child).map(|c| (el(c), c.select(&grand).map(el).collect(), c.select(&other).map(el).collect())).collect()))
}

} // verus!
