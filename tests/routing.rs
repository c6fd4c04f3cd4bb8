use font::decimal::parse_numeral;
use font::markup::Markup;
use font::path::split_path;
use font::pattern::{fill, match_pattern, recognize, Capture, Segment};
use font::route::AppRoute;
use font::router::{Model, Msg};
use font::view::{app_info, apps, apps_table, nav, render, stars};

fn b_pattern() -> Vec<Segment> {
    vec![
        Segment::Literal(String::new()),
        Segment::Literal("b".to_string()),
        Segment::Text,
        Segment::Number,
    ]
}

fn a_pattern() -> Vec<Segment> {
    vec![Segment::Literal(String::new()), Segment::Literal("a".to_string()), Segment::Text]
}

fn c_pattern() -> Vec<Segment> {
    vec![Segment::Literal(String::new()), Segment::Literal("c".to_string())]
}

fn children(m: &Markup) -> &Vec<Markup> {
    match m {
        Markup::Element(e) => &e.children,
        Markup::Text(_) => panic!("a text leaf has no children"),
    }
}

fn tag(m: &Markup) -> &str {
    match m {
        Markup::Element(e) => e.tag.as_str(),
        Markup::Text(_) => panic!("a text leaf has no tag"),
    }
}

fn text_of(m: &Markup) -> &str {
    match m {
        Markup::Text(t) => t.as_str(),
        Markup::Element(_) => panic!("an element is no text"),
    }
}

fn body(page: &Markup) -> &Markup {
    &children(&children(page)[1])[0]
}

#[test]
fn app_path_captures_unicode_name() {
    assert_eq!(
        AppRoute::switch("/app/kubernetes离线包"),
        Some(AppRoute::App("kubernetes离线包".to_string()))
    );
}

#[test]
fn b_pattern_captures_text_and_number() {
    assert_eq!(
        match_pattern(&b_pattern(), "/b/hello/42"),
        Some(vec![Capture::Text("hello".to_string()), Capture::Number(42)])
    );
}

#[test]
fn b_pattern_rejects_non_numeric_segment() {
    assert_eq!(match_pattern(&b_pattern(), "/b/hello/notanumber"), None);
    let table = vec![a_pattern(), b_pattern(), c_pattern()];
    assert_eq!(recognize(&table, "/b/hello/notanumber"), None);
    assert_eq!(AppRoute::switch("/b/hello/notanumber"), None);
}

#[test]
fn recognize_takes_first_matching_pattern() {
    let table = vec![a_pattern(), b_pattern(), c_pattern()];
    assert_eq!(recognize(&table, "/c"), Some((2, vec![])));
    assert_eq!(
        recognize(&table, "/a/x"),
        Some((0, vec![Capture::Text("x".to_string())]))
    );
    let doubled = vec![vec![Segment::Text], vec![Segment::Number]];
    assert_eq!(recognize(&doubled, "7"), Some((0, vec![Capture::Text("7".to_string())])));
}

#[test]
fn navigate_updates_current_route_at_once() {
    let mut model = Model::create("".to_string());
    let pushed = model.navigate(&AppRoute::App("x".to_string()));
    assert_eq!(pushed, "/app/x");
    assert_eq!(model.current_route(), Some(AppRoute::App("x".to_string())));
}

#[test]
fn navigation_event_to_empty_path_is_home() {
    let mut model = Model::create("/app/x".to_string());
    let mut calls = Vec::new();
    calls.push(model.on_navigation_changed("".to_string()));
    assert_eq!(calls, vec![Some(AppRoute::Home)]);
    assert_eq!(model.current_route(), Some(AppRoute::Home));
}

#[test]
fn round_trip_of_each_route() {
    for r in [
        AppRoute::Home,
        AppRoute::App("x".to_string()),
        AppRoute::App("kubernetes离线包".to_string()),
    ] {
        assert_eq!(AppRoute::switch(&r.to_path()), Some(r.clone()));
    }
}

#[test]
fn to_path_is_canonical() {
    assert_eq!(AppRoute::Home.to_path(), "");
    assert_eq!(AppRoute::App("sealos".to_string()).to_path(), "/app/sealos");
}

#[test]
fn unmatched_paths_have_no_route() {
    assert_eq!(AppRoute::switch("/"), None);
    assert_eq!(AppRoute::switch("/app/"), None);
    assert_eq!(AppRoute::switch("/app/a/b"), None);
    assert_eq!(AppRoute::switch("/apps/a"), None);
    assert_eq!(AppRoute::switch("app/a"), None);
}

#[test]
fn numerals_read_as_u32_from_str() {
    assert_eq!(parse_numeral("42"), Some(42));
    assert_eq!(parse_numeral("+7"), Some(7));
    assert_eq!(parse_numeral("007"), Some(7));
    assert_eq!(parse_numeral("4294967295"), Some(u32::MAX));
    assert_eq!(parse_numeral("4294967296"), None);
    assert_eq!(parse_numeral(""), None);
    assert_eq!(parse_numeral("+"), None);
    assert_eq!(parse_numeral("-1"), None);
    assert_eq!(parse_numeral("4a"), None);
    for s in ["0", "19", "65535", "4294967295", "+12", "x", ""] {
        assert_eq!(parse_numeral(s), s.parse::<u32>().ok());
    }
}

#[test]
fn number_capture_edge_values() {
    assert_eq!(
        match_pattern(&b_pattern(), "/b/n/4294967295"),
        Some(vec![Capture::Text("n".to_string()), Capture::Number(u32::MAX)])
    );
    assert_eq!(match_pattern(&b_pattern(), "/b/n/4294967296"), None);
    assert_eq!(match_pattern(&b_pattern(), "/b//1"), None);
    assert_eq!(match_pattern(&b_pattern(), "/b/n/1/"), None);
}

#[test]
fn split_path_at_each_slash() {
    assert_eq!(split_path(""), vec![""]);
    assert_eq!(split_path("/"), vec!["", ""]);
    assert_eq!(split_path("/app/离线"), vec!["", "app", "离线"]);
    assert_eq!(split_path("a//b"), vec!["a", "", "b"]);
}

#[test]
fn model_update_follows_messages() {
    let mut model = Model::create("".to_string());
    assert_eq!(model.update(Msg::Nope), None);
    assert_eq!(model.route, "");
    assert_eq!(
        model.update(Msg::ChangeRoute(AppRoute::App("kuboard".to_string()))),
        Some("/app/kuboard".to_string())
    );
    assert_eq!(model.route, "/app/kuboard");
    assert_eq!(model.update(Msg::RouteChanged("/nowhere".to_string())), None);
    assert_eq!(model.current_route(), None);
}

#[test]
fn render_shows_not_found() {
    let page = render(&None);
    assert_eq!(tag(&page), "div");
    assert_eq!(tag(&children(&page)[0]), "nav");
    assert_eq!(text_of(body(&page)), "404");
}

#[test]
fn render_shows_catalogue_at_home() {
    let page = render(&Some(AppRoute::Home));
    let b = body(&page);
    assert_eq!(tag(b), "ul");
    assert_eq!(children(b).len(), 3);
}

#[test]
fn render_shows_app_detail() {
    let page = Model::create("/app/sealos".to_string()).view();
    let b = body(&page);
    assert_eq!(text_of(&children(&children(b)[0])[0]), "sealos");
}

#[test]
fn apps_table_links_featured_app() {
    let table = apps_table();
    let first_row = &children(&children(&table)[1])[0];
    match &children(first_row)[0] {
        Markup::Element(e) => {
            assert_eq!(e.on_click, Some(AppRoute::App("kubernetes离线包".to_string())))
        }
        Markup::Text(_) => panic!("the first cell is an element"),
    }
    assert_eq!(children(&stars(4)).len(), 4);
    assert_eq!(children(&stars(0)).len(), 0);
    assert_eq!(tag(&nav()), "nav");
    assert_eq!(children(&apps()).len(), 3);
}

#[test]
fn fill_writes_canonical_path() {
    let caps = vec![Capture::Text("hello".to_string()), Capture::Number(42)];
    assert_eq!(fill(&b_pattern(), &caps), "/b/hello/42");
    assert_eq!(match_pattern(&b_pattern(), &fill(&b_pattern(), &caps)), Some(caps));
    assert_eq!(fill(&c_pattern(), &vec![]), "/c");
    assert_eq!(fill(&vec![Segment::Literal(String::new())], &vec![]), "");
    assert_eq!(
        fill(&vec![Segment::Number], &vec![Capture::Number(u32::MAX)]),
        "4294967295"
    );
    assert_eq!(fill(&vec![Segment::Number], &vec![Capture::Number(0)]), "0");
}

fn describe(m: &Markup) -> String {
    match m {
        Markup::Text(t) => format!("'{}'", t),
        Markup::Element(e) => {
            let attrs: Vec<String> = e.attributes.iter().map(|(k, v)| format!("{}={}", k, v)).collect();
            let kids: Vec<String> = e.children.iter().map(describe).collect();
            format!("<{} {:?} {:?}>[{}]", e.tag, attrs, e.on_click, kids.join(","))
        }
    }
}

fn texts(m: &Markup, out: &mut Vec<String>) {
    match m {
        Markup::Text(t) => out.push(t.clone()),
        Markup::Element(e) => e.children.iter().for_each(|c| texts(c, out)),
    }
}

fn clicks(m: &Markup, out: &mut Vec<AppRoute>) {
    if let Markup::Element(e) = m {
        if let Some(r) = &e.on_click {
            out.push(r.clone());
        }
        e.children.iter().for_each(|c| clicks(c, out));
    }
}

#[test]
fn render_is_a_function_of_the_route() {
    for path in ["", "/app/sealos", "/nope"] {
        let a = Model::create(path.to_string()).view();
        let b = render(&AppRoute::switch(path));
        assert_eq!(describe(&a), describe(&b));
        assert_eq!(describe(&children(&children(&a)[0])[0]), describe(&nav()));
        assert_eq!(children(&children(&a)[1]).len(), 1);
    }
    assert_eq!(
        describe(body(&render(&Some(AppRoute::Home)))),
        describe(&apps())
    );
    assert_eq!(
        describe(body(&render(&Some(AppRoute::App("x".to_string()))))),
        describe(&app_info(&"x".to_string()))
    );
}

#[test]
fn nav_lists_menu_and_dropdown() {
    let mut t = Vec::new();
    texts(&nav(), &mut t);
    assert_eq!(
        t,
        vec!["开源市场|云原生市场", "友情链接", "云原生实验室", "sealos", "kuboard", "签约作者"]
    );
    let n = nav();
    match &n {
        Markup::Element(e) => assert_eq!(
            e.attributes,
            vec![
                ("class".to_string(), "uk-navbar-container".to_string()),
                ("uk-navbar".to_string(), "true".to_string())
            ]
        ),
        Markup::Text(_) => panic!("the nav bar is an element"),
    }
    let mut c = Vec::new();
    clicks(&n, &mut c);
    assert!(c.is_empty());
}

#[test]
fn apps_has_three_categories_first_open() {
    let a = apps();
    let sections = children(&a);
    let mut titles = Vec::new();
    for s in sections {
        texts(&children(s)[0], &mut titles);
    }
    assert_eq!(titles, vec!["云内核 kubernetes", "云驱动", "中间件"]);
    let open: Vec<bool> = sections
        .iter()
        .map(|s| match s {
            Markup::Element(e) => e.attributes.iter().any(|(k, v)| k == "class" && v == "uk-open"),
            Markup::Text(_) => false,
        })
        .collect();
    assert_eq!(open, vec![true, false, false]);
    for s in sections {
        assert_eq!(describe(&children(&children(s)[1])[0]), describe(&apps_table()));
    }
}

#[test]
fn apps_table_cells_and_click_routes() {
    let table = apps_table();
    let mut head = Vec::new();
    texts(&children(&table)[0], &mut head);
    assert_eq!(head, vec!["名称", "价格", "描述", "使用次数", "评分"]);
    let rows = children(&children(&table)[1]);
    assert_eq!(rows.len(), 2);
    let mut r1 = Vec::new();
    texts(&rows[0], &mut r1);
    assert_eq!(r1, vec!["kubernetes离线包", "50", "一键安装kubernetes高可用集群", "2020"]);
    let mut r2 = Vec::new();
    texts(&rows[1], &mut r2);
    assert_eq!(r2, vec!["ARM kubernetes离线包", "99", "ARM版 一键安装kubernetes高可用集群", "2020"]);
    assert_eq!(children(&rows[0]).len(), 5);
    assert_eq!(children(&rows[1]).len(), 5);
    assert_eq!(children(&children(&rows[0])[4]).len(), 4);
    assert_eq!(children(&children(&rows[1])[4]).len(), 3);
    let mut c = Vec::new();
    clicks(&table, &mut c);
    assert_eq!(c, vec![AppRoute::App("kubernetes离线包".to_string())]);
}
