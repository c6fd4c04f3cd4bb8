//! The router: the path the browser shows, and how navigation changes it.
//! The host performs what `update` hands back (pushing a history entry) and
//! delivers browser navigation as messages.
use vstd::prelude::*;
use crate::route::{
    is_reachable, lemma_route_round_trip, opt_route_view, path_of, route_of, AppRoute,
};

verus! {

/// What the page reacts to.
pub enum Msg {
    /// The browser moved to this path (back or forward).
    RouteChanged(String),
    /// A link on the page asks for this route.
    ChangeRoute(AppRoute),
    /// Nothing to do.
    Nope,
}

/// The page's state: the raw path of the current navigation.
pub struct Model {
    pub route: String,
}

impl Model {
    /// Starts at the path the browser shows.
    pub fn create(path: String) -> (m: Model)
        ensures
            m.route@ == path@,
    {
        Model { route: path }
    }

    /// The route of the current path; `None` where no pattern matches.
    pub fn current_route(&self) -> (r: Option<AppRoute>)
        ensures
            opt_route_view(r) == route_of(self.route@),
    {
        AppRoute::switch(self.route.as_str())
    }

    /// Moves to `route` at once, and returns its canonical path, which the
    /// caller pushes as a new history entry. A reachable route is current
    /// as soon as this returns.
    pub fn navigate(&mut self, route: &AppRoute) -> (pushed: String)
        ensures
            pushed@ == path_of(route@),
            final(self).route@ == pushed@,
            is_reachable(route@) ==> route_of(final(self).route@) == Some(route@),
    {
        let path = route.to_path();
        proof {
            if is_reachable(route@) {
                lemma_route_round_trip(route@);
            }
        }
        self.route = path.clone();
        path
    }

    /// Takes the path that browser navigation moved to, and returns its
    /// route, which is handed to the navigation callback.
    pub fn on_navigation_changed(&mut self, path: String) -> (r: Option<AppRoute>)
        ensures
            final(self).route@ == path@,
            opt_route_view(r) == route_of(path@),
    {
        self.route = path;
        self.current_route()
    }

    /// Applies a message. Returns the path to push onto the browser history,
    /// where there is one.
    pub fn update(&mut self, msg: Msg) -> (push: Option<String>)
        ensures
            match msg {
                Msg::RouteChanged(p) => final(self).route@ == p@ && push is None,
                Msg::ChangeRoute(r) => {
                    &&& push is Some
                    &&& push->0@ == path_of(r@)
                    &&& final(self).route@ == path_of(r@)
                },
                Msg::Nope => final(self).route@ == old(self).route@ && push is None,
            },
    {
        match msg {
            Msg::RouteChanged(p) => {
                self.route = p;
                None
            },
            Msg::ChangeRoute(r) => Some(self.navigate(&r)),
            Msg::Nope => None,
        }
    }
}

} // verus!
