//! The page's routes: the app detail page `/app/{appName}` and the home
//! page, at the empty path.
use vstd::prelude::*;
use crate::path::{
    has_no_slash, join_segments, lemma_join_split, lemma_split_join,
    path_segments,
};
use crate::pattern::{
    captures_view, fill, filled_segments, fits, match_path, match_segments, pattern_view,
    recognize, table_view, Capture, CaptureView, Segment, SegmentView,
};

verus! {

/// Where the page is.
#[derive(Debug, Clone, PartialEq, Eq)]
pub enum AppRoute {
    /// The detail page of the app of this name.
    App(String),
    /// The catalogue.
    Home,
}

pub enum AppRouteView {
    App(Seq<char>),
    Home,
}

impl View for AppRoute {
    type V = AppRouteView;

    open spec fn view(&self) -> AppRouteView {
        match self {
            AppRoute::App(name) => AppRouteView::App(name@),
            AppRoute::Home => AppRouteView::Home,
        }
    }
}

pub open spec fn opt_route_view(r: Option<AppRoute>) -> Option<AppRouteView> {
    match r {
        Some(x) => Some(x@),
        None => None,
    }
}

pub open spec fn app_literal() -> Seq<char> {
    seq!['a', 'p', 'p']
}

/// The pattern `/app/{appName}`.
pub open spec fn app_pattern() -> Seq<SegmentView> {
    seq![SegmentView::Literal(Seq::<char>::empty()), SegmentView::Literal(app_literal()), SegmentView::Text]
}

/// The pattern of the empty path.
pub open spec fn home_pattern() -> Seq<SegmentView> {
    seq![SegmentView::Literal(Seq::<char>::empty())]
}

/// The route of a path: `/app/` and a name with no `/` is that app's page,
/// the empty path is home, and any other path has no route.
pub open spec fn route_of(path: Seq<char>) -> Option<AppRouteView> {
    let segs = path_segments(path);
    if segs.len() == 3 && segs[0].len() == 0 && segs[1] == app_literal() && segs[2].len() > 0 {
        Some(AppRouteView::App(segs[2]))
    } else if path.len() == 0 {
        Some(AppRouteView::Home)
    } else {
        None
    }
}

/// The canonical path of a route.
pub open spec fn path_of(r: AppRouteView) -> Seq<char> {
    match r {
        AppRouteView::App(name) => seq!['/'] + app_literal() + seq!['/'] + name,
        AppRouteView::Home => Seq::<char>::empty(),
    }
}

/// A route that a path can name: an app's name is not empty and holds no
/// `/`.
pub open spec fn is_reachable(r: AppRouteView) -> bool {
    match r {
        AppRouteView::App(name) => name.len() > 0 && has_no_slash(name),
        AppRouteView::Home => true,
    }
}

proof fn lemma_app_pattern(segs: Seq<Seq<char>>)
    ensures
        match_segments(app_pattern(), segs) == (if segs.len() == 3 && segs[0].len() == 0
            && segs[1] == app_literal() && segs[2].len() > 0 {
            Some(seq![CaptureView::Text(segs[2])])
        } else {
            None
        }),
{
    let p = app_pattern();
    let e = Seq::<char>::empty();
    let none = Seq::<CaptureView>::empty();
    if segs.len() == 3 {
        let p2 = p.drop_last();
        let s2 = segs.drop_last();
        let p1 = p2.drop_last();
        let s1 = s2.drop_last();
        assert(p1.drop_last() =~= Seq::<SegmentView>::empty());
        assert(s1.drop_last() =~= Seq::<Seq<char>>::empty());
        assert(match_segments(p1.drop_last(), s1.drop_last()) == Some(none));
        assert(p1.last() == SegmentView::Literal(e));
        assert(s1.last() == segs[0]);
        assert(segs[0].len() == 0 <==> segs[0] =~= e);
        assert(match_segments(p1, s1) == (if segs[0] == e {
            Some(none)
        } else {
            None
        }));
        assert(p2.last() == SegmentView::Literal(app_literal()));
        assert(s2.last() == segs[1]);
        assert(match_segments(p2, s2) == (if segs[0] == e && segs[1] == app_literal() {
            Some(none)
        } else {
            None
        }));
        assert(p.last() == SegmentView::Text);
        assert(segs.last() == segs[2]);
        assert(none.push(CaptureView::Text(segs[2])) =~= seq![CaptureView::Text(segs[2])]);
    }
}

proof fn lemma_home_pattern(path: Seq<char>)
    ensures
        match_path(home_pattern(), path) == (if path.len() == 0 {
            Some(Seq::<CaptureView>::empty())
        } else {
            None
        }),
{
    let segs = path_segments(path);
    let p = home_pattern();
    let e = Seq::<char>::empty();
    lemma_join_split(path);
    if path.len() == 0 {
        assert(segs =~= seq![e]);
    }
    if segs.len() == 1 {
        assert(p.drop_last() =~= Seq::<SegmentView>::empty());
        assert(segs.drop_last() =~= Seq::<Seq<char>>::empty());
        assert(match_segments(p.drop_last(), segs.drop_last()) == Some(Seq::<CaptureView>::empty()));
        assert(join_segments(segs) == segs[0]);
        assert(segs.last() == segs[0]);
        assert(p.last() == SegmentView::Literal(e));
        assert(path.len() == 0 <==> segs[0] =~= e);
    }
}

/// The app pattern's segments, filled with a name and joined, are the
/// app's canonical path.
proof fn lemma_app_path(name: Seq<char>)
    ensures
        join_segments(seq![Seq::<char>::empty(), app_literal(), name]) == path_of(
            AppRouteView::App(name),
        ),
{
    let e = Seq::<char>::empty();
    let segs = seq![e, app_literal(), name];
    assert(segs.drop_last().drop_last() =~= seq![e]);
    assert(segs.drop_last() =~= seq![e, app_literal()]);
    assert(join_segments(seq![e]) == e);
    assert(join_segments(seq![e, app_literal()]) =~= seq!['/'] + app_literal());
    assert(join_segments(segs) =~= path_of(AppRouteView::App(name)));
}

/// Every reachable route is read back from its canonical path.
pub proof fn lemma_route_round_trip(r: AppRouteView)
    requires
        is_reachable(r),
    ensures
        route_of(path_of(r)) == Some(r),
{
    match r {
        AppRouteView::App(name) => {
            let e = Seq::<char>::empty();
            let segs = seq![e, app_literal(), name];
            lemma_app_path(name);
            assert forall|i: int| 0 <= i < segs.len() implies has_no_slash(#[trigger] segs[i]) by {
                if i == 1 {
                    assert(app_literal() == seq!['a', 'p', 'p']);
                }
            }
            lemma_split_join(segs);
        },
        AppRouteView::Home => {
            assert(path_segments(Seq::<char>::empty()).len() == 1);
        },
    }
}

impl AppRoute {
    /// The route patterns, in the order in which they are tried: the app
    /// page, then home.
    pub fn patterns() -> (r: Vec<Vec<Segment>>)
        ensures
            table_view(r@) == seq![app_pattern(), home_pattern()],
    {
        let app = String::from_str("app");
        proof {
            reveal_strlit("app");
        }
        assert(app@ =~= app_literal());
        let app_pat = vec![Segment::Literal(String::new()), Segment::Literal(app), Segment::Text];
        let home_pat = vec![Segment::Literal(String::new())];
        assert(pattern_view(app_pat@) =~= app_pattern());
        assert(pattern_view(home_pat@) =~= home_pattern());
        let r = vec![app_pat, home_pat];
        assert(table_view(r@) =~= seq![app_pattern(), home_pattern()]);
        r
    }

    /// The route that a path names, if any.
    pub fn switch(path: &str) -> (r: Option<AppRoute>)
        ensures
            opt_route_view(r) == route_of(path@),
    {
        let table = AppRoute::patterns();
        let found = recognize(&table, path);
        let ghost segs = path_segments(path@);
        proof {
            lemma_app_pattern(segs);
            lemma_home_pattern(path@);
            assert(table_view(table@)[0] == app_pattern());
            assert(table_view(table@)[1] == home_pattern());
            assert(table_view(table@).len() == table@.len());
            assert(path@.len() == 0 ==> segs =~= seq![Seq::<char>::empty()]);
        }
        match found {
            Some((i, caps)) => {
                if i == 0 {
                    assert(captures_view(caps@) == seq![CaptureView::Text(segs[2])]);
                    assert(captures_view(caps@).len() == caps@.len());
                    assert(caps@.len() == 1);
                    assert(captures_view(caps@)[0] == caps@[0]@);
                    assert(caps@[0]@ == CaptureView::Text(segs[2]));
                    match &caps[0] {
                        Capture::Text(name) => {
                            let n = name.clone();
                            assert(n@ == segs[2]);
                            Some(AppRoute::App(n))
                        },
                        Capture::Number(_) => None,
                    }
                } else {
                    assert(match_path(table_view(table@)[0], path@) is None);
                    assert(i == 1);
                    assert(path@.len() == 0);
                    Some(AppRoute::Home)
                }
            },
            None => {
                assert(table_view(table@).len() == table@.len());
                assert(table@.len() == 2);
                assert(match_path(table_view(table@)[0], path@) is None);
                assert(match_path(table_view(table@)[1], path@) is None);
                None
            },
        }
    }

    /// The canonical path of this route: its pattern filled with its
    /// captures.
    pub fn to_path(&self) -> (r: String)
        ensures
            r@ == path_of(self@),
    {
        let table = AppRoute::patterns();
        proof {
            assert(table_view(table@)[0] == app_pattern());
            assert(table_view(table@)[1] == home_pattern());
            assert(table_view(table@).len() == table@.len());
        }
        let ghost e = Seq::<char>::empty();
        match self {
            AppRoute::App(name) => {
                let caps = vec![Capture::Text(name.clone())];
                let ghost cv = captures_view(caps@);
                let ghost p = app_pattern();
                assert(cv =~= seq![CaptureView::Text(name@)]);
                assert(cv.drop_last() =~= Seq::<CaptureView>::empty());
                assert(p.drop_last() =~= seq![SegmentView::Literal(e), SegmentView::Literal(app_literal())]);
                assert(p.drop_last().drop_last() =~= seq![SegmentView::Literal(e)]);
                assert(p.drop_last().drop_last().drop_last() =~= Seq::<SegmentView>::empty());
                let ghost none = Seq::<CaptureView>::empty();
                let ghost p2 = p.drop_last();
                let ghost p1 = p2.drop_last();
                assert(fits(p1.drop_last(), none));
                assert(filled_segments(p1.drop_last(), none) =~= Seq::<Seq<char>>::empty());
                assert(p1.last() == SegmentView::Literal(e));
                assert(fits(p1, none));
                assert(filled_segments(p1, none) =~= seq![e]);
                assert(p2.last() == SegmentView::Literal(app_literal()));
                assert(fits(p2, none));
                assert(filled_segments(p2, none) =~= seq![e, app_literal()]);
                assert(p.last() == SegmentView::Text);
                assert(cv.last() == CaptureView::Text(name@));
                assert(fits(p, cv));
                assert(filled_segments(p, cv) =~= seq![e, app_literal(), name@]);
                proof {
                    lemma_app_path(name@);
                }
                assert(self@ == AppRouteView::App(name@));
                fill(&table[0], &caps)
            },
            AppRoute::Home => {
                let caps: Vec<Capture> = Vec::new();
                let ghost p = home_pattern();
                assert(captures_view(caps@) =~= Seq::<CaptureView>::empty());
                assert(p.drop_last() =~= Seq::<SegmentView>::empty());
                assert(p.last() == SegmentView::Literal(e));
                assert(filled_segments(p.drop_last(), captures_view(caps@)) =~= Seq::<Seq<char>>::empty());
                assert(filled_segments(p, captures_view(caps@)) =~= seq![e]);
                assert(fits(p.drop_last(), captures_view(caps@)));
                fill(&table[1], &caps)
            },
        }
    }
}

} // verus!
