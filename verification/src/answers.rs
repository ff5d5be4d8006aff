//! What a refused request is answered with, once the error pages are applied.

use vstd::prelude::*;

use crate::auth::rejection::AuthRejection;
use crate::chunks::error::ChunkError;
use crate::chunks::retrieve;
use crate::error;
use crate::http;

verus! {

/// An answer is replaced by a page exactly where its status has one and it is
/// not JSON, whoever gave the answer.
pub proof fn law_an_error_gets_its_page(head: http::Head)
    ensures
        error::gets_page(head) <==> error::page_texts(head.status) is Some && !error::is_json(
            head.content_type,
        ),
{
}

/// The statuses that have a page.
pub proof fn law_five_statuses_have_a_page(status: u16)
    ensures
        error::page_texts(status) is Some <==> status == http::NOT_FOUND || status
            == http::PAYLOAD_TOO_LARGE || status == http::UNSUPPORTED_MEDIA_TYPE || status
            == http::UNPROCESSABLE_ENTITY || status == http::INTERNAL_SERVER_ERROR,
{
}

/// Every way in which a chunk request fails is answered with the page of its
/// status: 404 for a content type that is not the route's, 500 for the rest.
pub proof fn law_a_failed_chunk_request_gets_a_page(failure: ChunkError)
    ensures
        error::gets_page(http::bare_head(failure.status())),
        failure is UnmatchedFormat <==> failure.status() == http::NOT_FOUND,
        !(failure is UnmatchedFormat) <==> failure.status() == http::INTERNAL_SERVER_ERROR,
{
}

/// A request for a chunk that is turned away is answered with the page of its
/// status: 422 for what is no id, 404 for the empty id.
pub proof fn law_a_refused_chunk_id_gets_a_page(param: Seq<char>)
    requires
        retrieve::wanted(param) is Err,
    ensures
        error::gets_page(http::bare_head(retrieve::wanted(param)->Err_0)),
{
}

/// An unreadable query, a failed database and a method without a route are
/// answered with the pages of 422, 500 and 404.
pub proof fn law_bare_refusals_get_pages()
    ensures
        error::gets_page(http::bare_head(http::UNPROCESSABLE_ENTITY)),
        error::gets_page(http::bare_head(http::INTERNAL_SERVER_ERROR)),
        error::gets_page(http::bare_head(http::NOT_FOUND)),
{
}

/// A request that authentication or entitlement turns away keeps its JSON
/// body; no page takes its place.
pub proof fn law_a_rejection_keeps_its_body(rejection: AuthRejection)
    ensures
        !error::gets_page(http::head(rejection.status(), http::JSON@)),
{
    let bytes = vstd::utf8::encode_utf8(http::JSON@);
    assert(bytes.subrange(0, bytes.len() as int) == bytes);
}

/// An answer that reports no error is never replaced.
pub proof fn law_a_success_is_left_alone(head: http::Head)
    requires
        !http::is_error(head.status),
    ensures
        !error::gets_page(head),
{
}

} // verus!
