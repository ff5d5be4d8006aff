//! Error answers: bare statuses for failed queries and databases, and the HTML
//! pages that stand in for every error answer without a body of its own.

use vstd::prelude::*;

use crate::http;
use crate::json;
use crate::http::{
    bare, Head, Response, HTML, INTERNAL_SERVER_ERROR, JSON, NOT_FOUND, PAYLOAD_TOO_LARGE,
    UNPROCESSABLE_ENTITY, UNSUPPORTED_MEDIA_TYPE,
};

verus! {

/// The answer to a failed database query.
pub struct AppError;

impl AppError {
    /// A failed query is answered with a bare 500.
    pub fn into_response(self) -> (response: Response<String>)
        ensures
            response.head() == http::bare_head(INTERNAL_SERVER_ERROR),
            response.body@.len() == 0,
    {
        bare(INTERNAL_SERVER_ERROR)
    }
}

/// The answer to a query string that is missing or has the wrong shape.
pub struct UnprocessableEntity;

impl UnprocessableEntity {
    /// A query string that cannot be read is answered with a bare 422.
    pub fn into_response(self) -> (response: Response<String>)
        ensures
            response.head() == http::bare_head(UNPROCESSABLE_ENTITY),
            response.body@.len() == 0,
    {
        bare(UNPROCESSABLE_ENTITY)
    }
}

/// What an error page says: the status code, its reason, and a sentence.
pub struct PageTexts {
    pub code: Seq<char>,
    pub reason: Seq<char>,
    pub description: Seq<char>,
}

/// The texts of the page for `status`, for every status that has a page.
pub open spec fn page_texts(status: u16) -> Option<PageTexts> {
    if status == NOT_FOUND {
        Some(
            PageTexts {
                code: "404"@,
                reason: "Not Found"@,
                description: "The requested resource could not be found."@,
            },
        )
    } else if status == PAYLOAD_TOO_LARGE {
        Some(
            PageTexts {
                code: "413"@,
                reason: "Payload Too Large"@,
                description: "The request is larger than the server is willing or able to process."@,
            },
        )
    } else if status == UNSUPPORTED_MEDIA_TYPE {
        Some(
            PageTexts {
                code: "415"@,
                reason: "Unsupported Media Type"@,
                description: "The request entity has a media type which the server or resource does not support."@,
            },
        )
    } else if status == UNPROCESSABLE_ENTITY {
        Some(
            PageTexts {
                code: "422"@,
                reason: "Unprocessable Entity"@,
                description: "The request was well-formed but was unable to be followed due to semantic errors."@,
            },
        )
    } else if status == INTERNAL_SERVER_ERROR {
        Some(
            PageTexts {
                code: "500"@,
                reason: "Internal Server Error"@,
                description: "The server encountered an internal error while processing this request."@,
            },
        )
    } else {
        None
    }
}

/// The page's markup up to its title.
pub const PAGE_TOP: &'static str = "<!DOCTYPE html>
<html lang=\"en\">
<head>
    <meta charset=\"utf-8\">
    <meta name=\"color-scheme\" content=\"light dark\">
    <title>";

/// The page's markup between its title and its heading.
pub const PAGE_BODY: &'static str = "</title>
</head>
<body align=\"center\">
    <div role=\"main\" align=\"center\">
        <h1>";

/// The page's markup between its heading and its sentence.
pub const PAGE_SENTENCE: &'static str = "</h1>
        <p>";

/// The page's markup after its sentence; no newline ends it.
pub const PAGE_BOTTOM: &'static str = "</p>
        <hr />
    </div>
    <div role=\"contentinfo\" align=\"center\">
        <small>Rocket</small>
    </div>
</body>
</html>";

/// The page with these texts.
pub open spec fn page(texts: PageTexts) -> Seq<char> {
    PAGE_TOP@ + texts.code + " "@ + texts.reason + PAGE_BODY@ + texts.code + ": "@ + texts.reason
        + PAGE_SENTENCE@ + texts.description + PAGE_BOTTOM@
}

fn render(code: &str, reason: &str, description: &str) -> (html: String)
    ensures
        html@ == page(
            PageTexts { code: code@, reason: reason@, description: description@ },
        ),
{
    let mut html = PAGE_TOP.to_owned();
    html.append(code);
    html.append(" ");
    html.append(reason);
    html.append(PAGE_BODY);
    html.append(code);
    html.append(": ");
    html.append(reason);
    html.append(PAGE_SENTENCE);
    html.append(description);
    html.append(PAGE_BOTTOM);
    html
}

/// Renders the error page for `status`, or `None` for a status without one.
pub fn error_page(status: u16) -> (html: Option<String>)
    ensures
        html is Some == page_texts(status) is Some,
        html matches Some(h) ==> h@ == page(page_texts(status)->0),
{
    if status == NOT_FOUND {
        Some(render("404", "Not Found", "The requested resource could not be found."))
    } else if status == PAYLOAD_TOO_LARGE {
        Some(
            render(
                "413",
                "Payload Too Large",
                "The request is larger than the server is willing or able to process.",
            ),
        )
    } else if status == UNSUPPORTED_MEDIA_TYPE {
        Some(
            render(
                "415",
                "Unsupported Media Type",
                "The request entity has a media type which the server or resource does not support.",
            ),
        )
    } else if status == UNPROCESSABLE_ENTITY {
        Some(
            render(
                "422",
                "Unprocessable Entity",
                "The request was well-formed but was unable to be followed due to semantic errors.",
            ),
        )
    } else if status == INTERNAL_SERVER_ERROR {
        Some(
            render(
                "500",
                "Internal Server Error",
                "The server encountered an internal error while processing this request.",
            ),
        )
    } else {
        None
    }
}

/// Whether a content type announces JSON: it begins with `application/json`.
pub open spec fn is_json(content_type: Option<Seq<u8>>) -> bool {
    content_type matches Some(bytes) && vstd::utf8::encode_utf8(JSON@).is_prefix_of(bytes)
}

/// Whether a response with this head is replaced by an error page: an error,
/// not in JSON, of a status that has a page.
pub open spec fn gets_page(head: Head) -> bool {
    &&& http::is_error(head.status)
    &&& !is_json(head.content_type)
    &&& page_texts(head.status) is Some
}

/// A response after the error pages: as it was, or an error page in its place.
pub enum Paged<B> {
    Untouched(Response<B>),
    Page(Response<String>),
}

fn begins_with(bytes: &Vec<u8>, prefix: &[u8]) -> (found: bool)
    ensures
        found == prefix@.is_prefix_of(bytes@),
{
    if bytes.len() < prefix.len() {
        return false;
    }
    for i in 0..prefix.len()
        invariant
            prefix@.len() <= bytes@.len(),
            prefix@.take(i as int) == bytes@.take(i as int),
    {
        if bytes[i] != prefix[i] {
            return false;
        }
        assert(prefix@.take(i + 1) == prefix@.take(i as int).push(prefix@[i as int]));
        assert(bytes@.take(i + 1) == bytes@.take(i as int).push(bytes@[i as int]));
    }
    assert(prefix@.take(prefix@.len() as int) == prefix@);
    true
}

/// Gives every error without a JSON body the page of its status. A JSON body
/// is the application's own and is left alone, and so is a status without a
/// page.
pub fn default_error_pages<B>(response: Response<B>) -> (paged: Paged<B>)
    ensures
        !gets_page(response.head()) ==> paged == Paged::Untouched(response),
        gets_page(response.head()) ==> {
            &&& paged is Page
            &&& paged->Page_0.head() == http::head(response.status, HTML@)
            &&& paged->Page_0.body@ == page(page_texts(response.status)->0)
        },
{
    if response.status < 400 || response.status >= 600 {
        return Paged::Untouched(response);
    }
    if let Some(bytes) = &response.content_type {
        if begins_with(bytes, JSON.as_bytes()) {
            return Paged::Untouched(response);
        }
    }
    match error_page(response.status) {
        Some(html) => Paged::Page(Response::with_type(response.status, HTML, html)),
        None => Paged::Untouched(response),
    }
}

/// A page is a page already: were the error pages applied to it again, it
/// would be replaced by itself.
pub proof fn law_a_page_is_stable(status: u16)
    requires
        page_texts(status) is Some,
    ensures
        gets_page(http::head(status, HTML@)),
{
    reveal_strlit("application/json");
    reveal_strlit("text/html; charset=utf-8");
    vstd::utf8::is_ascii_chars_encode_utf8(JSON@);
    vstd::utf8::is_ascii_chars_encode_utf8(HTML@);
    assert(vstd::utf8::encode_utf8(JSON@)[0] == 97);
    assert(vstd::utf8::encode_utf8(HTML@)[0] == 116);
}

/// A content type is JSON by how it begins, whatever follows, and by nothing
/// else; a response without one is not JSON.
pub proof fn law_json_is_told_by_its_beginning(bytes: Seq<u8>, rest: Seq<u8>)
    ensures
        is_json(Some(vstd::utf8::encode_utf8("application/json"@) + rest)),
        is_json(Some(bytes)) <==> {
            let name = vstd::utf8::encode_utf8("application/json"@);
            bytes.len() >= name.len() && forall|i: int|
                0 <= i < name.len() ==> bytes[i] == #[trigger] name[i]
        },
        !is_json(None),
{
    let name = vstd::utf8::encode_utf8("application/json"@);
    assert((name + rest).subrange(0, name.len() as int) == name);
    if bytes.len() >= name.len() && forall|i: int|
        0 <= i < name.len() ==> bytes[i] == #[trigger] name[i] {
        assert(bytes.subrange(0, name.len() as int) == name);
    }
    if is_json(Some(bytes)) {
        assert forall|i: int| 0 <= i < name.len() implies bytes[i] == #[trigger] name[i] by {
            assert(bytes.subrange(0, name.len() as int)[i] == bytes[i]);
        }
    }
}

/// The code that a page shows is the status, in decimal.
pub proof fn law_a_page_shows_its_own_status(status: u16)
    requires
        page_texts(status) is Some,
    ensures
        page_texts(status)->0.code == json::decimal(status as int),
{
    reveal_with_fuel(json::digits, 4);
    reveal_strlit("404");
    reveal_strlit("413");
    reveal_strlit("415");
    reveal_strlit("422");
    reveal_strlit("500");
    assert("404"@ =~= json::decimal(404));
    assert("413"@ =~= json::decimal(413));
    assert("415"@ =~= json::decimal(415));
    assert("422"@ =~= json::decimal(422));
    assert("500"@ =~= json::decimal(500));
}

/// A page shows its texts whole: code and reason in its title and again in its
/// heading, and then the sentence. All else is the same on every page.
pub proof fn law_a_page_shows_its_texts_whole(texts: PageTexts)
    ensures
        ({
            let title = texts.code + " "@ + texts.reason;
            let heading = texts.code + ": "@ + texts.reason;
            page(texts) == PAGE_TOP@ + title + (PAGE_BODY@ + heading) + (PAGE_SENTENCE@
                + texts.description + PAGE_BOTTOM@)
        }),
{
    let title = texts.code + " "@ + texts.reason;
    let heading = texts.code + ": "@ + texts.reason;
    assert(page(texts) =~= PAGE_TOP@ + title + (PAGE_BODY@ + heading) + (PAGE_SENTENCE@
        + texts.description + PAGE_BOTTOM@));
}

/// What each page says besides its status.
pub proof fn law_what_each_page_says(status: u16)
    ensures
        page_texts(status) matches Some(texts) ==> match status {
            404 => texts.reason == "Not Found"@ && texts.description
                == "The requested resource could not be found."@,
            413 => texts.reason == "Payload Too Large"@ && texts.description
                == "The request is larger than the server is willing or able to process."@,
            415 => texts.reason == "Unsupported Media Type"@ && texts.description
                == "The request entity has a media type which the server or resource does not support."@,
            422 => texts.reason == "Unprocessable Entity"@ && texts.description
                == "The request was well-formed but was unable to be followed due to semantic errors."@,
            500 => texts.reason == "Internal Server Error"@ && texts.description
                == "The server encountered an internal error while processing this request."@,
            _ => false,
        },
        page_texts(status) is None ==> status != 404 && status != 413 && status != 415 && status
            != 422 && status != 500,
{
}

} // verus!
