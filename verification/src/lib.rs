//! The core of a file sync server: what each request is answered with, how
//! chunks are stored, framed and served, and how commits are recorded.

use vstd::prelude::*;

use crate::route::{Handler, Method, Route};

pub mod answers;
pub mod auth;
pub mod chunk_id;
pub mod chunks;
pub mod error;
pub mod extract;
pub mod http;
pub mod json;
pub mod metadata;
pub mod route;
pub mod text;

verus! {

/// All routes of the server: the chunk routes, then the metadata routes.
pub fn create_server() -> (table: Vec<Route>)
    ensures
        route::table_view(table@) == chunks::routes() + metadata::routes(),
{
    let mut table = chunks::router();
    let ghost first = table@;
    let mut rest = metadata::router();
    let ghost second = rest@;
    table.append(&mut rest);
    assert(route::table_view(first + second) =~= route::table_view(first) + route::table_view(
        second,
    ));
    table
}

/// No two routes have the same path, so the tables can be merged and each path
/// has one answer per method.
pub proof fn law_paths_are_distinct(i: int, j: int)
    requires
        0 <= i < j < (chunks::routes() + metadata::routes()).len(),
    ensures
        (chunks::routes() + metadata::routes())[i].path != (chunks::routes()
            + metadata::routes())[j].path,
{
    reveal_strlit("/chunks");
    reveal_strlit("/chunks/");
    reveal_strlit("/chunks/upload");
    reveal_strlit("/chunks/download");
    reveal_strlit("/chunks/{id}");
    reveal_strlit("/metadata/commit");
    reveal_strlit("/metadata/has_files");
    reveal_strlit("/metadata/list");
    reveal_strlit("/metadata/poll");
    let all = chunks::routes() + metadata::routes();
    assert(all.len() == 9);
    assert(all[0].path == "/chunks"@ && all[1].path == "/chunks/"@);
    assert(all[2].path == "/chunks/upload"@ && all[3].path == "/chunks/download"@);
    assert(all[4].path == "/chunks/{id}"@ && all[5].path == "/metadata/commit"@);
    assert(all[6].path == "/metadata/has_files"@ && all[7].path == "/metadata/list"@);
    assert(all[8].path == "/metadata/poll"@);
    assert("/chunks/upload"@[1] == 'c');
    assert("/chunks/download"@[1] == 'c');
    assert("/metadata/commit"@[1] == 'm');
    assert("/metadata/list"@[1] == 'm');
    assert("/metadata/poll"@[1] == 'm');
    assert("/metadata/list"@[10] == 'l');
    assert("/metadata/poll"@[10] == 'p');
}

/// Which handler answers at which path, and to which method: what is asked or
/// fetched by GET, what is sent by POST.
pub proof fn law_every_path_has_its_handler(i: int)
    requires
        0 <= i < (chunks::routes() + metadata::routes()).len(),
    ensures
        ({
            let route = (chunks::routes() + metadata::routes())[i];
            &&& match route.handler {
                Handler::UploadChunksDeprecated => route.path == "/chunks"@ || route.path
                    == "/chunks/"@,
                Handler::UploadChunks => route.path == "/chunks/upload"@,
                Handler::DownloadChunks => route.path == "/chunks/download"@,
                Handler::RetrieveChunk => route.path == "/chunks/{id}"@,
                Handler::Commit => route.path == "/metadata/commit"@,
                Handler::HasFiles => route.path == "/metadata/has_files"@,
                Handler::List => route.path == "/metadata/list"@,
                Handler::Poll => route.path == "/metadata/poll"@,
            }
            &&& route.method == Method::Get <==> route.handler == Handler::RetrieveChunk
                || route.handler == Handler::HasFiles || route.handler == Handler::List
                || route.handler == Handler::Poll
            &&& route.body_limit == if route.handler == Handler::UploadChunksDeprecated
                || route.handler == Handler::UploadChunks || route.handler
                == Handler::RetrieveChunk {
                5 * 1024 * 1024
            } else {
                1024 * 1024
            }
        }),
{
    let all = chunks::routes() + metadata::routes();
    assert(all.len() == 9);
    assert(all[0] == chunks::routes()[0] && all[1] == chunks::routes()[1]);
    assert(all[2] == chunks::routes()[2] && all[3] == chunks::routes()[3]);
    assert(all[4] == chunks::routes()[4] && all[5] == metadata::routes()[0]);
    assert(all[6] == metadata::routes()[1] && all[7] == metadata::routes()[2]);
    assert(all[8] == metadata::routes()[3]);
}

/// Every handler answers at some path.
pub proof fn law_every_handler_answers_somewhere(handler: Handler)
    ensures
        exists|i: int|
            0 <= i < (chunks::routes() + metadata::routes()).len() && (#[trigger] (chunks::routes()
                + metadata::routes())[i]).handler == handler,
{
    let all = chunks::routes() + metadata::routes();
    assert(all.len() == 9);
    assert(all[0] == chunks::routes()[0] && all[2] == chunks::routes()[2]);
    assert(all[3] == chunks::routes()[3] && all[4] == chunks::routes()[4]);
    assert(all[5] == metadata::routes()[0] && all[6] == metadata::routes()[1]);
    assert(all[7] == metadata::routes()[2] && all[8] == metadata::routes()[3]);
    let i: int = match handler {
        Handler::UploadChunksDeprecated => 0,
        Handler::UploadChunks => 2,
        Handler::DownloadChunks => 3,
        Handler::RetrieveChunk => 4,
        Handler::Commit => 5,
        Handler::HasFiles => 6,
        Handler::List => 7,
        Handler::Poll => 8,
    };
    assert(all[i].handler == handler);
}

} // verus!
