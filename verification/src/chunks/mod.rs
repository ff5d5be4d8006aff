//! Chunk transport: uploads, downloads and single chunks.

use vstd::prelude::*;

use crate::http;
use crate::http::{bare, Response, NOT_FOUND};
use crate::route;
use crate::route::{Handler, Method, Route};

pub mod capped;
pub mod download;
pub mod error;
pub mod framing;
pub mod request;
pub mod response;
pub mod retrieve;
pub mod storage;
pub mod upload;

verus! {

/// The most bytes of an upload that are read.
pub const DATA_FORM_LIMIT: usize = 5 * 1024 * 1024;

/// The most bytes that a form may have.
pub const FORM_LIMIT: usize = 1024 * 1024;

/// The chunk routes.
pub open spec fn routes() -> Seq<route::RouteView> {
    seq![
        route::post("/chunks"@, Handler::UploadChunksDeprecated, DATA_FORM_LIMIT),
        route::post("/chunks/"@, Handler::UploadChunksDeprecated, DATA_FORM_LIMIT),
        route::post("/chunks/upload"@, Handler::UploadChunks, DATA_FORM_LIMIT),
        route::post("/chunks/download"@, Handler::DownloadChunks, FORM_LIMIT),
        route::get("/chunks/{id}"@, Handler::RetrieveChunk, DATA_FORM_LIMIT),
    ]
}

/// The chunk routes.
pub fn router() -> (table: Vec<Route>)
    ensures
        route::table_view(table@) == routes(),
{
    let table = vec![
        Route {
            method: Method::Post,
            path: "/chunks",
            handler: Handler::UploadChunksDeprecated,
            body_limit: DATA_FORM_LIMIT,
        },
        Route {
            method: Method::Post,
            path: "/chunks/",
            handler: Handler::UploadChunksDeprecated,
            body_limit: DATA_FORM_LIMIT,
        },
        Route {
            method: Method::Post,
            path: "/chunks/upload",
            handler: Handler::UploadChunks,
            body_limit: DATA_FORM_LIMIT,
        },
        Route {
            method: Method::Post,
            path: "/chunks/download",
            handler: Handler::DownloadChunks,
            body_limit: FORM_LIMIT,
        },
        Route {
            method: Method::Get,
            path: "/chunks/{id}",
            handler: Handler::RetrieveChunk,
            body_limit: DATA_FORM_LIMIT,
        },
    ];
    assert(route::table_view(table@) =~= routes());
    table
}

/// A request whose path has a route but not for its method is answered as if
/// there were none.
pub fn method_not_allowed() -> (response: Response<String>)
    ensures
        response.head() == http::bare_head(NOT_FOUND),
        response.body@.len() == 0,
{
    bare(NOT_FOUND)
}

} // verus!
