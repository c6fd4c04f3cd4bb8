//! A declarative markup tree: elements with attributes, an optional route
//! that a click on them asks for, and children; and text leaves. The host
//! turns it into the document.
use vstd::prelude::*;
use crate::route::{opt_route_view, AppRoute, AppRouteView};

verus! {

pub enum Markup {
    Text(String),
    Element(Element),
}

pub struct Element {
    pub tag: String,
    pub attributes: Vec<(String, String)>,
    /// The route that a click on this element navigates to.
    pub on_click: Option<AppRoute>,
    pub children: Vec<Markup>,
}

/// What a markup tree shows: the same tree over plain values.
pub enum MarkupView {
    Text(Seq<char>),
    Element {
        tag: Seq<char>,
        attributes: Seq<(Seq<char>, Seq<char>)>,
        on_click: Option<AppRouteView>,
        children: Seq<MarkupView>,
    },
}

pub open spec fn attributes_view(a: Seq<(String, String)>) -> Seq<(Seq<char>, Seq<char>)> {
    a.map_values(|p: (String, String)| (p.0@, p.1@))
}

/// The view of a markup tree.
pub open spec fn markup_view(m: Markup) -> MarkupView
    decreases m,
{
    match m {
        Markup::Text(t) => MarkupView::Text(t@),
        Markup::Element(e) => MarkupView::Element {
            tag: e.tag@,
            attributes: attributes_view(e.attributes@),
            on_click: opt_route_view(e.on_click),
            children: Seq::new(
                e.children@.len(),
                |i: int|
                    if 0 <= i < e.children@.len() {
                        markup_view(e.children@[i])
                    } else {
                        MarkupView::Text(Seq::empty())
                    },
            ),
        },
    }
}

pub open spec fn views(cs: Seq<Markup>) -> Seq<MarkupView> {
    cs.map_values(|c: Markup| markup_view(c))
}

/// A text leaf, as a view.
pub open spec fn text_view(t: Seq<char>) -> MarkupView {
    MarkupView::Text(t)
}

/// An element that reacts to no click, as a view.
pub open spec fn element_view(
    tag: Seq<char>,
    attributes: Seq<(Seq<char>, Seq<char>)>,
    children: Seq<MarkupView>,
) -> MarkupView {
    MarkupView::Element { tag, attributes, on_click: None, children }
}

/// A link with a text label, as a view.
pub open spec fn link_view(href: Seq<char>, label: Seq<char>) -> MarkupView {
    element_view("a"@, seq![("href"@, href)], seq![text_view(label)])
}

/// A tree that shows something: text that is not empty, or an element with
/// at least one child.
pub open spec fn is_nonempty(v: MarkupView) -> bool {
    match v {
        MarkupView::Text(t) => t.len() > 0,
        MarkupView::Element { children, .. } => children.len() > 0,
    }
}

proof fn lemma_element_view(e: Element)
    ensures
        markup_view(Markup::Element(e)) == (MarkupView::Element {
            tag: e.tag@,
            attributes: attributes_view(e.attributes@),
            on_click: opt_route_view(e.on_click),
            children: views(e.children@),
        }),
{
    let v = markup_view(Markup::Element(e));
    assert(v->children =~= views(e.children@));
}

/// A text leaf.
pub fn text(s: &str) -> (r: Markup)
    ensures
        markup_view(r) == text_view(s@),
{
    Markup::Text(String::from_str(s))
}

/// No attributes.
pub fn no_attributes() -> (r: Vec<(String, String)>)
    ensures
        attributes_view(r@) == Seq::<(Seq<char>, Seq<char>)>::empty(),
{
    let r: Vec<(String, String)> = Vec::new();
    assert(attributes_view(r@) =~= Seq::<(Seq<char>, Seq<char>)>::empty());
    r
}

/// One attribute, as name and value.
pub fn attribute(name: &str, value: &str) -> (r: Vec<(String, String)>)
    ensures
        attributes_view(r@) == seq![(name@, value@)],
{
    let r = vec![(String::from_str(name), String::from_str(value))];
    assert(attributes_view(r@) =~= seq![(name@, value@)]);
    r
}

/// Two attributes, in order.
pub fn attributes2(n1: &str, v1: &str, n2: &str, v2: &str) -> (r: Vec<(String, String)>)
    ensures
        attributes_view(r@) == seq![(n1@, v1@), (n2@, v2@)],
{
    let r = vec![
        (String::from_str(n1), String::from_str(v1)),
        (String::from_str(n2), String::from_str(v2)),
    ];
    assert(attributes_view(r@) =~= seq![(n1@, v1@), (n2@, v2@)]);
    r
}

/// No children.
pub fn no_nodes() -> (r: Vec<Markup>)
    ensures
        views(r@) == Seq::<MarkupView>::empty(),
{
    let r: Vec<Markup> = Vec::new();
    assert(views(r@) =~= Seq::<MarkupView>::empty());
    r
}

/// One child.
pub fn nodes1(a: Markup) -> (r: Vec<Markup>)
    ensures
        views(r@) == seq![markup_view(a)],
{
    let ghost va = markup_view(a);
    let r = vec![a];
    assert(views(r@) =~= seq![va]);
    r
}

/// Two children, in order.
pub fn nodes2(a: Markup, b: Markup) -> (r: Vec<Markup>)
    ensures
        views(r@) == seq![markup_view(a), markup_view(b)],
{
    let ghost v = seq![markup_view(a), markup_view(b)];
    let r = vec![a, b];
    assert(views(r@) =~= v);
    r
}

/// Three children, in order.
pub fn nodes3(a: Markup, b: Markup, c: Markup) -> (r: Vec<Markup>)
    ensures
        views(r@) == seq![markup_view(a), markup_view(b), markup_view(c)],
{
    let ghost v = seq![markup_view(a), markup_view(b), markup_view(c)];
    let r = vec![a, b, c];
    assert(views(r@) =~= v);
    r
}

/// Five children, in order.
pub fn nodes5(a: Markup, b: Markup, c: Markup, d: Markup, e: Markup) -> (r: Vec<Markup>)
    ensures
        views(r@) == seq![
            markup_view(a),
            markup_view(b),
            markup_view(c),
            markup_view(d),
            markup_view(e),
        ],
{
    let ghost v = seq![
        markup_view(a),
        markup_view(b),
        markup_view(c),
        markup_view(d),
        markup_view(e),
    ];
    let r = vec![a, b, c, d, e];
    assert(views(r@) =~= v);
    r
}

/// An element that reacts to no click.
pub fn element(tag: &str, attributes: Vec<(String, String)>, children: Vec<Markup>) -> (r: Markup)
    ensures
        markup_view(r) == element_view(tag@, attributes_view(attributes@), views(children@)),
{
    let e = Element { tag: String::from_str(tag), attributes, on_click: None, children };
    proof {
        lemma_element_view(e);
    }
    Markup::Element(e)
}

/// An element without attributes whose click navigates to `route`.
pub fn clickable(tag: &str, route: AppRoute, children: Vec<Markup>) -> (r: Markup)
    ensures
        markup_view(r) == (MarkupView::Element {
            tag: tag@,
            attributes: Seq::<(Seq<char>, Seq<char>)>::empty(),
            on_click: Some(route@),
            children: views(children@),
        }),
{
    let e = Element { tag: String::from_str(tag), attributes: no_attributes(), on_click: Some(route), children };
    proof {
        lemma_element_view(e);
    }
    Markup::Element(e)
}

/// A link with a text label.
pub fn link(href: &str, label: &str) -> (r: Markup)
    ensures
        markup_view(r) == link_view(href@, label@),
{
    element("a", attribute("href", href), nodes1(text(label)))
}

} // verus!
