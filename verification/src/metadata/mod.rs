//! File metadata: commits, listings and long polls.

use vstd::prelude::*;

use crate::http;
use crate::http::{bare, Response, NOT_FOUND};
use crate::route;
use crate::route::{Handler, Method, Route};

pub mod commit;
pub mod handlers;
pub mod journal;
pub mod models;
pub mod notification;
pub mod records;
pub mod response;

verus! {

/// Where the records are kept, unless configured otherwise.
pub const DEFAULT_DATABASE_URL: &'static str = "db/server.sqlite3";

/// The most bytes that a form may have.
pub const FORM_LIMIT: usize = 1024 * 1024;

/// The configured database, or the default where none is.
pub fn database_url(configured: Option<String>) -> (url: String)
    ensures
        url@ == match configured {
            Some(found) => found@,
            None => DEFAULT_DATABASE_URL@,
        },
{
    match configured {
        Some(found) => found,
        None => DEFAULT_DATABASE_URL.to_owned(),
    }
}

/// The metadata routes.
pub open spec fn routes() -> Seq<route::RouteView> {
    seq![
        route::post("/metadata/commit"@, Handler::Commit, FORM_LIMIT),
        route::get("/metadata/has_files"@, Handler::HasFiles, FORM_LIMIT),
        route::get("/metadata/list"@, Handler::List, FORM_LIMIT),
        route::get("/metadata/poll"@, Handler::Poll, FORM_LIMIT),
    ]
}

/// The metadata routes.
pub fn router() -> (table: Vec<Route>)
    ensures
        route::table_view(table@) == routes(),
{
    let table = vec![
        Route {
            method: Method::Post,
            path: "/metadata/commit",
            handler: Handler::Commit,
            body_limit: FORM_LIMIT,
        },
        Route {
            method: Method::Get,
            path: "/metadata/has_files",
            handler: Handler::HasFiles,
            body_limit: FORM_LIMIT,
        },
        Route {
            method: Method::Get,
            path: "/metadata/list",
            handler: Handler::List,
            body_limit: FORM_LIMIT,
        },
        Route {
            method: Method::Get,
            path: "/metadata/poll",
            handler: Handler::Poll,
            body_limit: FORM_LIMIT,
        },
    ];
    assert(route::table_view(table@) =~= routes());
    table
}

/// A request whose path has a route but not for its method is answered as if
/// there were none.
pub fn method_not_allowed() -> (response: Response<String>)
    ensures
        response.head() == http::bare_head(NOT_FOUND),
        response.body@.len() == 0,
{
    bare(NOT_FOUND)
}

} // verus!
