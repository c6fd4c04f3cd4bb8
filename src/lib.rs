//! Client-side routing for a small marketplace page: path patterns with typed
//! captures, the page's route type, the router state machine, and the markup
//! tree that each route renders to.

pub mod decimal;
pub mod markup;
pub mod path;
pub mod pattern;
pub mod route;
pub mod router;
pub mod view;
