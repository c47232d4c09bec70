//! What the library reads from an HTML page, through the `scraper` crate.
//!
//! A page is parsed and queried with a CSS selector in one call, and the
//! matched elements come back as plain values: their text pieces and one
//! attribute. The parse and the selection are functions of the page text and
//! the selector alone; their results carry the names declared here.
use vstd::prelude::*;

verus! {

/// One element that a selector matched: the text pieces below it, in document
/// order, and the value of one attribute of it.
pub struct ScrapedNode {
    pub texts: Vec<String>,
    pub attr: Option<String>,
}

pub ghost struct ScrapedNodeView {
    pub texts: Seq<Seq<char>>,
    pub attr: Option<Seq<char>>,
}

impl View for ScrapedNode {
    type V = ScrapedNodeView;

    open spec fn view(&self) -> ScrapedNodeView {
        ScrapedNodeView {
            texts: self.texts.deep_view(),
            attr: match self.attr {
                Some(a) => Some(a@),
                None => None,
            },
        }
    }
}

pub open spec fn nodes_view(v: Seq<ScrapedNode>) -> Seq<ScrapedNodeView> {
    v.map_values(|n: ScrapedNode| n@)
}

/// An element below the first match of an outer selector: one attribute of
/// it, and, for the first element below it that an inner selector matches,
/// one attribute of that one.
pub struct NestedNode {
    pub attr: Option<String>,
    pub inner_attr: Option<Option<String>>,
}

pub ghost struct NestedNodeView {
    pub attr: Option<Seq<char>>,
    pub inner_attr: Option<Option<Seq<char>>>,
}

impl View for NestedNode {
    type V = NestedNodeView;

    open spec fn view(&self) -> NestedNodeView {
        NestedNodeView {
            attr: match self.attr {
                Some(a) => Some(a@),
                None => None,
            },
            inner_attr: match self.inner_attr {
                Some(Some(a)) => Some(Some(a@)),
                Some(None) => Some(None),
                None => None,
            },
        }
    }
}

pub open spec fn nested_view(v: Seq<NestedNode>) -> Seq<NestedNodeView> {
    v.map_values(|n: NestedNode| n@)
}

/// What `scraper` selects in the document `html` with the CSS selector
/// `selector`, reading attribute `attr` of each match; `None` where the
/// selector does not parse.
pub uninterp spec fn selected_nodes(html: Seq<char>, selector: Seq<char>, attr: Seq<char>) -> Option<Seq<ScrapedNodeView>>;

/// What `scraper` finds below the first match of `outer` in `html`: for each
/// match of `item` there, its attribute `item_attr` and attribute
/// `inner_attr` of its first descendant that matches `inner`. The outer
/// `None` is a selector that does not parse, the inner one a page where
/// `outer` matches nothing.
pub uninterp spec fn nested_nodes(
    html: Seq<char>,
    outer: Seq<char>,
    item: Seq<char>,
    item_attr: Seq<char>,
    inner: Seq<char>,
    inner_attr: Seq<char>,
) -> Option<Option<Seq<NestedNodeView>>>;

/// Calls `scraper::Selector::parse` and `scraper::Html::parse_document`, then
/// `Html::select`, and for each match `ElementRef::text` and the element's
/// `attr`. The contract claims only that the result is a function of the
/// three arguments, named `selected_nodes`; what the HTML parse and the
/// selector matching give is left to that name.
#[verifier::external_body]
pub(crate) fn select_nodes(html: &str, selector: &str, attr: &str) -> (r: Option<Vec<ScrapedNode>>)
    ensures
        match r {
            Some(v) => selected_nodes(html@, selector@, attr@) == Some(nodes_view(v@)),
            None => selected_nodes(html@, selector@, attr@) is None,
        },
{
    let sel = scraper::Selector::parse(selector).ok()?;
    let doc = scraper::Html::parse_document(html);
    Some(doc.select(&sel).map(|n| ScrapedNode {
        texts: n.text().map(|t| t.to_string()).collect(),
        attr: n.value().attr(attr).map(|a| a.to_string()),
    }).collect())
}

/// Calls `scraper::Selector::parse` three times and
/// `scraper::Html::parse_document`, takes the first match of `outer` with
/// `Html::select`, and below it, with `ElementRef::select`, each match of
/// `item` and the first match of `inner` below that. The contract claims only
/// that the result is a function of the six arguments, named `nested_nodes`;
/// what the parse and the matching give is left to that name.
#[verifier::external_body]
pub(crate) fn select_nested(
    html: &str,
    outer: &str,
    item: &str,
    item_attr: &str,
    inner: &str,
    inner_attr: &str,
) -> (r: Option<Option<Vec<NestedNode>>>)
    ensures
        match r {
            Some(Some(v)) => nested_nodes(html@, outer@, item@, item_attr@, inner@, inner_attr@)
                == Some(Some(nested_view(v@))),
            Some(None) => nested_nodes(html@, outer@, item@, item_attr@, inner@, inner_attr@)
                == Some(None::<Seq<NestedNodeView>>),
            None => nested_nodes(html@, outer@, item@, item_attr@, inner@, inner_attr@) is None,
        },
{
    let outer_sel = scraper::Selector::parse(outer).ok()?;
    let item_sel = scraper::Selector::parse(item).ok()?;
    let inner_sel = scraper::Selector::parse(inner).ok()?;
    let doc = scraper::Html::parse_document(html);
    Some(doc.select(&outer_sel).next().map(|o| o.select(&item_sel).map(|e| NestedNode {
        attr: e.value().attr(item_attr).map(|a| a.to_string()),
        inner_attr: e.select(&inner_sel).next().map(|u| u.value().attr(inner_attr).map(|a| a.to_string())),
    }).collect()))
}

} // verus!
