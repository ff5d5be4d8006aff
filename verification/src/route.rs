//! The table of routes that the server answers on.

use vstd::prelude::*;

verus! {

/// The method of a request.
#[derive(Clone, Copy, PartialEq, Eq, Structural)]
pub enum Method {
    Get,
    Post,
}

/// What answers a route.
#[derive(Clone, Copy, PartialEq, Eq, Structural)]
pub enum Handler {
    UploadChunksDeprecated,
    UploadChunks,
    DownloadChunks,
    RetrieveChunk,
    Commit,
    HasFiles,
    List,
    Poll,
}

/// What a handler asks of a request before it does anything.
#[derive(Clone, Copy, PartialEq, Eq, Structural)]
pub enum Guard {
    /// An authenticated account.
    Authenticated,
    /// An authenticated account that may sync.
    Entitled,
}

/// What a handler asks of a request: an account that may sync, but for the
/// question whether an account has files, which every account may ask.
pub open spec fn guard_of(handler: Handler) -> Guard {
    if handler == Handler::HasFiles {
        Guard::Authenticated
    } else {
        Guard::Entitled
    }
}

/// What a handler asks of a request before it does anything.
pub fn guard(handler: Handler) -> (asked: Guard)
    ensures
        asked == guard_of(handler),
{
    if handler == Handler::HasFiles {
        Guard::Authenticated
    } else {
        Guard::Entitled
    }
}

/// A route: the method and path that it answers, by which handler, and how
/// many bytes of a body it buffers at most.
pub struct Route {
    pub method: Method,
    pub path: &'static str,
    pub handler: Handler,
    pub body_limit: usize,
}

/// A route over character sequences.
pub struct RouteView {
    pub method: Method,
    pub path: Seq<char>,
    pub handler: Handler,
    pub body_limit: usize,
}

impl View for Route {
    type V = RouteView;

    open spec fn view(&self) -> RouteView {
        RouteView {
            method: self.method,
            path: self.path@,
            handler: self.handler,
            body_limit: self.body_limit,
        }
    }
}

/// The view of a table of routes.
pub open spec fn table_view(routes: Seq<Route>) -> Seq<RouteView> {
    routes.map_values(|route: Route| route@)
}

/// A route for requests of the method GET.
pub open spec fn get(path: Seq<char>, handler: Handler, body_limit: usize) -> RouteView {
    RouteView { method: Method::Get, path, handler, body_limit }
}

/// A route for requests of the method POST.
pub open spec fn post(path: Seq<char>, handler: Handler, body_limit: usize) -> RouteView {
    RouteView { method: Method::Post, path, handler, body_limit }
}

/// Routes are shown whole, and tables in order.
pub proof fn law_routes_are_shown_whole(route: Route, table: Seq<Route>)
    ensures
        route@.method == route.method,
        route@.path == route.path@,
        route@.handler == route.handler,
        route@.body_limit == route.body_limit,
        table_view(table).len() == table.len(),
        forall|i: int| 0 <= i < table.len() ==> #[trigger] table_view(table)[i] == table[i]@,
{
}

} // verus!
