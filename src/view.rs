//! The page: the navigation bar, the catalogue of apps, an app's detail,
//! and the choice among them by route. Each part is stated as the view it
//! renders to, so one route always gives one page.
use vstd::prelude::*;
use crate::markup::{
    attribute, attributes2, clickable, element, element_view, is_nonempty, link, link_view,
    markup_view, no_attributes, no_nodes, nodes1, nodes2, nodes3, nodes5, text, text_view, views,
    Markup, MarkupView,
};
use crate::route::{opt_route_view, route_of, AppRoute, AppRouteView};
use crate::router::Model;

verus! {

/// The app whose name in the catalogue opens its detail page.
pub open spec fn featured_app() -> Seq<char> {
    "kubernetes离线包"@
}

/// A class attribute, or none.
pub open spec fn class_if(on: bool, class: Seq<char>) -> Seq<(Seq<char>, Seq<char>)> {
    if on {
        seq![("class"@, class)]
    } else {
        Seq::<(Seq<char>, Seq<char>)>::empty()
    }
}

/// A menu entry holding one link; the active one has the class `uk-active`.
pub open spec fn menu_item_view(active: bool, href: Seq<char>, label: Seq<char>) -> MarkupView {
    element_view("li"@, class_if(active, "uk-active"@), seq![link_view(href, label)])
}

/// The dropdown of friendly links.
pub open spec fn dropdown_view() -> MarkupView {
    element_view(
        "div"@,
        seq![("class"@, "uk-navbar-dropdown"@)],
        seq![
            element_view(
                "ul"@,
                seq![("class"@, "uk-nav uk-navbar-dropdown-nav"@)],
                seq![
                    menu_item_view(true, "#"@, "云原生实验室"@),
                    menu_item_view(false, "#"@, "sealos"@),
                    menu_item_view(false, "#"@, "kuboard"@),
                ],
            ),
        ],
    )
}

/// The left part of the navigation bar: three menu entries, the second with
/// the dropdown.
pub open spec fn nav_left_view() -> MarkupView {
    element_view(
        "div"@,
        seq![("class"@, "uk-navbar-left"@)],
        seq![
            element_view(
                "ul"@,
                seq![("class"@, "uk-navbar-nav"@)],
                seq![
                    menu_item_view(true, "/"@, "开源市场|云原生市场"@),
                    element_view(
                        "li"@,
                        Seq::<(Seq<char>, Seq<char>)>::empty(),
                        seq![link_view("#"@, "友情链接"@), dropdown_view()],
                    ),
                    menu_item_view(false, "#"@, "签约作者"@),
                ],
            ),
        ],
    )
}

/// The right part of the navigation bar: the github icon.
pub open spec fn nav_right_view() -> MarkupView {
    element_view(
        "div"@,
        seq![("class"@, "uk-navbar-right"@)],
        seq![
            element_view(
                "p"@,
                seq![("uk-icon"@, "icon: github; ratio: 2.3"@), ("style"@, "margin-right:10px;"@)],
                Seq::<MarkupView>::empty(),
            ),
        ],
    )
}

/// The navigation bar.
pub open spec fn nav_view() -> MarkupView {
    element_view(
        "nav"@,
        seq![("class"@, "uk-navbar-container"@), ("uk-navbar"@, "true"@)],
        seq![nav_left_view(), nav_right_view()],
    )
}

pub open spec fn star_view() -> MarkupView {
    element_view("p"@, seq![("uk-icon"@, "star"@)], Seq::<MarkupView>::empty())
}

/// A table cell of `n` star icons.
pub open spec fn stars_view(n: nat) -> MarkupView {
    element_view("td"@, Seq::<(Seq<char>, Seq<char>)>::empty(), Seq::new(n, |i: int| star_view()))
}

/// A table cell of text; `tag` is `th` in the head, `td` in the body.
pub open spec fn cell_view(tag: Seq<char>, s: Seq<char>) -> MarkupView {
    element_view(tag, Seq::<(Seq<char>, Seq<char>)>::empty(), seq![text_view(s)])
}

/// The cell of the featured app's name: a click opens its detail page.
pub open spec fn featured_cell_view() -> MarkupView {
    MarkupView::Element {
        tag: "td"@,
        attributes: Seq::<(Seq<char>, Seq<char>)>::empty(),
        on_click: Some(AppRouteView::App(featured_app())),
        children: seq![text_view(featured_app())],
    }
}

pub open spec fn row_view(cells: Seq<MarkupView>) -> MarkupView {
    element_view("tr"@, Seq::<(Seq<char>, Seq<char>)>::empty(), cells)
}

/// The table of apps in a category.
pub open spec fn apps_table_view() -> MarkupView {
    let none = Seq::<(Seq<char>, Seq<char>)>::empty();
    element_view(
        "table"@,
        seq![("class"@, "uk-table"@)],
        seq![
            element_view(
                "thead"@,
                none,
                seq![
                    row_view(
                        seq![
                            cell_view("th"@, "名称"@),
                            cell_view("th"@, "价格"@),
                            cell_view("th"@, "描述"@),
                            cell_view("th"@, "使用次数"@),
                            cell_view("th"@, "评分"@),
                        ],
                    ),
                ],
            ),
            element_view(
                "tbody"@,
                none,
                seq![
                    row_view(
                        seq![
                            featured_cell_view(),
                            cell_view("td"@, "50"@),
                            cell_view("td"@, "一键安装kubernetes高可用集群"@),
                            cell_view("td"@, "2020"@),
                            stars_view(4),
                        ],
                    ),
                    row_view(
                        seq![
                            cell_view("td"@, "ARM kubernetes离线包"@),
                            cell_view("td"@, "99"@),
                            cell_view("td"@, "ARM版 一键安装kubernetes高可用集群"@),
                            cell_view("td"@, "2020"@),
                            stars_view(3),
                        ],
                    ),
                ],
            ),
        ],
    )
}

/// One accordion section: a title, and the apps table as its content; the
/// open one has the class `uk-open`.
pub open spec fn category_view(title: Seq<char>, open: bool) -> MarkupView {
    element_view(
        "li"@,
        class_if(open, "uk-open"@),
        seq![
            element_view(
                "a"@,
                seq![("class"@, "uk-accordion-title"@), ("href"@, "#"@)],
                seq![text_view(title)],
            ),
            element_view("div"@, seq![("class"@, "uk-accordion-content"@)], seq![apps_table_view()]),
        ],
    )
}

/// The catalogue: three categories, the first open.
pub open spec fn apps_view() -> MarkupView {
    element_view(
        "ul"@,
        seq![("uk-accordion"@, "true"@), ("class"@, "uk-container"@)],
        seq![
            category_view("云内核 kubernetes"@, true),
            category_view("云驱动"@, false),
            category_view("中间件"@, false),
        ],
    )
}

/// An app's detail page: its name as the heading.
pub open spec fn app_info_view(name: Seq<char>) -> MarkupView {
    element_view(
        "div"@,
        seq![("class"@, "uk-container"@)],
        seq![element_view("h2"@, Seq::<(Seq<char>, Seq<char>)>::empty(), seq![text_view(name)])],
    )
}

/// What the page shows for a route: the app's detail, the catalogue, or
/// `404` where no route matched.
pub open spec fn body_view(route: Option<AppRouteView>) -> MarkupView {
    match route {
        Some(AppRouteView::App(name)) => app_info_view(name),
        Some(AppRouteView::Home) => apps_view(),
        None => text_view("404"@),
    }
}

/// The page for a route: the navigation bar above the route's own view.
pub open spec fn page_view(route: Option<AppRouteView>) -> MarkupView {
    element_view(
        "div"@,
        Seq::<(Seq<char>, Seq<char>)>::empty(),
        seq![
            element_view("nav"@, seq![("class"@, "menu"@)], seq![nav_view()]),
            element_view("div"@, Seq::<(Seq<char>, Seq<char>)>::empty(), seq![body_view(route)]),
        ],
    )
}

fn class_attribute(on: bool, class: &str) -> (r: Vec<(String, String)>)
    ensures
        crate::markup::attributes_view(r@) == class_if(on, class@),
{
    if on {
        attribute("class", class)
    } else {
        no_attributes()
    }
}

fn menu_item(active: bool, href: &str, label: &str) -> (r: Markup)
    ensures
        markup_view(r) == menu_item_view(active, href@, label@),
{
    element("li", class_attribute(active, "uk-active"), nodes1(link(href, label)))
}

fn dropdown() -> (r: Markup)
    ensures
        markup_view(r) == dropdown_view(),
{
    let items = nodes3(
        menu_item(true, "#", "云原生实验室"),
        menu_item(false, "#", "sealos"),
        menu_item(false, "#", "kuboard"),
    );
    let list = element("ul", attribute("class", "uk-nav uk-navbar-dropdown-nav"), items);
    element("div", attribute("class", "uk-navbar-dropdown"), nodes1(list))
}

/// The navigation bar.
pub fn nav() -> (r: Markup)
    ensures
        markup_view(r) == nav_view(),
{
    let friends = element("li", no_attributes(), nodes2(link("#", "友情链接"), dropdown()));
    let menu = element(
        "ul",
        attribute("class", "uk-navbar-nav"),
        nodes3(menu_item(true, "/", "开源市场|云原生市场"), friends, menu_item(false, "#", "签约作者")),
    );
    let left = element("div", attribute("class", "uk-navbar-left"), nodes1(menu));
    let icon = element(
        "p",
        attributes2("uk-icon", "icon: github; ratio: 2.3", "style", "margin-right:10px;"),
        no_nodes(),
    );
    let right = element("div", attribute("class", "uk-navbar-right"), nodes1(icon));
    element("nav", attributes2("class", "uk-navbar-container", "uk-navbar", "true"), nodes2(left, right))
}

/// A table cell of `n` star icons.
pub fn stars(n: usize) -> (r: Markup)
    ensures
        markup_view(r) == stars_view(n as nat),
{
    let mut icons: Vec<Markup> = Vec::new();
    let mut i: usize = 0;
    assert(views(icons@) =~= Seq::new(0, |j: int| star_view()));
    while i < n
        invariant
            i <= n,
            views(icons@) == Seq::new(i as nat, |j: int| star_view()),
        decreases n - i,
    {
        let star = element("p", attribute("uk-icon", "star"), no_nodes());
        let ghost before = icons@;
        icons.push(star);
        assert(views(icons@) =~= views(before).push(star_view()));
        i = i + 1;
        assert(views(icons@) =~= Seq::new(i as nat, |j: int| star_view()));
    }
    element("td", no_attributes(), icons)
}

/// A table cell of text.
fn cell(tag: &str, s: &str) -> (r: Markup)
    ensures
        markup_view(r) == cell_view(tag@, s@),
{
    element(tag, no_attributes(), nodes1(text(s)))
}

/// The table of apps in a category. A click on the first app's name opens
/// its detail page; no other cell reacts to a click.
pub fn apps_table() -> (r: Markup)
    ensures
        markup_view(r) == apps_table_view(),
{
    let header = element(
        "tr",
        no_attributes(),
        nodes5(
            cell("th", "名称"),
            cell("th", "价格"),
            cell("th", "描述"),
            cell("th", "使用次数"),
            cell("th", "评分"),
        ),
    );
    let head = element("thead", no_attributes(), nodes1(header));
    let name = String::from_str("kubernetes离线包");
    let featured = clickable("td", AppRoute::App(name), nodes1(text("kubernetes离线包")));
    let row1 = element(
        "tr",
        no_attributes(),
        nodes5(
            featured,
            cell("td", "50"),
            cell("td", "一键安装kubernetes高可用集群"),
            cell("td", "2020"),
            stars(4),
        ),
    );
    let row2 = element(
        "tr",
        no_attributes(),
        nodes5(
            cell("td", "ARM kubernetes离线包"),
            cell("td", "99"),
            cell("td", "ARM版 一键安装kubernetes高可用集群"),
            cell("td", "2020"),
            stars(3),
        ),
    );
    let body = element("tbody", no_attributes(), nodes2(row1, row2));
    element("table", attribute("class", "uk-table"), nodes2(head, body))
}

/// One accordion section: a title, and the apps table as its content.
fn category(title: &str, open: bool) -> (r: Markup)
    ensures
        markup_view(r) == category_view(title@, open),
{
    let heading = element(
        "a",
        attributes2("class", "uk-accordion-title", "href", "#"),
        nodes1(text(title)),
    );
    let content = element("div", attribute("class", "uk-accordion-content"), nodes1(apps_table()));
    element("li", class_attribute(open, "uk-open"), nodes2(heading, content))
}

/// The catalogue of apps, by category.
pub fn apps() -> (r: Markup)
    ensures
        markup_view(r) == apps_view(),
{
    element(
        "ul",
        attributes2("uk-accordion", "true", "class", "uk-container"),
        nodes3(category("云内核 kubernetes", true), category("云驱动", false), category("中间件", false)),
    )
}

/// The detail page of the app of this name.
pub fn app_info(name: &String) -> (r: Markup)
    ensures
        markup_view(r) == app_info_view(name@),
{
    let heading = element("h2", no_attributes(), nodes1(text(name.as_str())));
    element("div", attribute("class", "uk-container"), nodes1(heading))
}

/// The page for a route: the navigation bar above the route's own view.
/// The page is a function of the route alone.
pub fn render(route: &Option<AppRoute>) -> (r: Markup)
    ensures
        markup_view(r) == page_view(opt_route_view(*route)),
        is_nonempty(markup_view(r)),
{
    let body = match route {
        Some(AppRoute::App(name)) => app_info(name),
        Some(AppRoute::Home) => apps(),
        None => text("404"),
    };
    element(
        "div",
        no_attributes(),
        nodes2(
            element("nav", attribute("class", "menu"), nodes1(nav())),
            element("div", no_attributes(), nodes1(body)),
        ),
    )
}

impl Model {
    /// The page for the current path.
    pub fn view(&self) -> (r: Markup)
        ensures
            markup_view(r) == page_view(route_of(self.route@)),
            is_nonempty(markup_view(r)),
    {
        render(&self.current_route())
    }
}

} // verus!
