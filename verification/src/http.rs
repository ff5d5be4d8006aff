//! HTTP answers: statuses and the part of a response that the server decides.

use vstd::prelude::*;

verus! {

pub const OK: u16 = 200;

pub const UNAUTHORIZED: u16 = 401;

pub const PAYMENT_REQUIRED: u16 = 402;

pub const NOT_FOUND: u16 = 404;

pub const PAYLOAD_TOO_LARGE: u16 = 413;

pub const UNSUPPORTED_MEDIA_TYPE: u16 = 415;

pub const UNPROCESSABLE_ENTITY: u16 = 422;

pub const INTERNAL_SERVER_ERROR: u16 = 500;

pub const JSON: &'static str = "application/json";

pub const HTML: &'static str = "text/html; charset=utf-8";

pub const PLAIN_TEXT: &'static str = "text/plain; charset=utf-8";

/// A response: its status, the bytes of its `Content-Type` header where it has
/// one, and a body of any kind.
pub struct Response<B> {
    pub status: u16,
    pub content_type: Option<Vec<u8>>,
    pub body: B,
}

/// What a client reads first: the status and the content type's bytes.
pub struct Head {
    pub status: u16,
    pub content_type: Option<Seq<u8>>,
}

/// A head with a text content type.
pub open spec fn head(status: u16, content_type: Seq<char>) -> Head {
    Head { status, content_type: Some(vstd::utf8::encode_utf8(content_type)) }
}

/// A head without a content type.
pub open spec fn bare_head(status: u16) -> Head {
    Head { status, content_type: None }
}

impl<B> Response<B> {
    pub open spec fn head(self) -> Head {
        Head {
            status: self.status,
            content_type: match self.content_type {
                Some(bytes) => Some(bytes@),
                None => None,
            },
        }
    }

    /// A response with a text content type.
    pub fn with_type(status: u16, content_type: &str, body: B) -> (response: Response<B>)
        ensures
            response.head() == head(status, content_type@),
            response.body == body,
    {
        Response { status, content_type: Some(content_type.as_bytes_vec()), body }
    }
}

/// A response of a status alone: no content type, an empty body.
pub fn bare(status: u16) -> (response: Response<String>)
    ensures
        response.head() == bare_head(status),
        response.body@.len() == 0,
{
    Response { status, content_type: None, body: String::new() }
}

/// Whether a status reports an error, the client's or the server's.
pub open spec fn is_error(status: u16) -> bool {
    400 <= status < 600
}

/// A head shows the status and, where there is one, the whole content type;
/// an error is a status from 400 on, below 600.
pub proof fn law_a_head_shows_status_and_type<B>(
    response: Response<B>,
    status: u16,
    content_type: Seq<char>,
)
    ensures
        response.head().status == response.status,
        match response.content_type {
            Some(bytes) => response.head().content_type == Some(bytes@),
            None => response.head().content_type is None,
        },
        head(status, content_type).status == status,
        head(status, content_type).content_type == Some(vstd::utf8::encode_utf8(content_type)),
        bare_head(status).status == status,
        bare_head(status).content_type is None,
        is_error(status) <==> 400 <= status <= 599,
{
}

/// The statuses and content types by their numbers and names.
pub proof fn law_what_statuses_and_types_are()
    ensures
        OK == 200,
        UNAUTHORIZED == 401,
        PAYMENT_REQUIRED == 402,
        NOT_FOUND == 404,
        PAYLOAD_TOO_LARGE == 413,
        UNSUPPORTED_MEDIA_TYPE == 415,
        UNPROCESSABLE_ENTITY == 422,
        INTERNAL_SERVER_ERROR == 500,
        JSON@ == "application/json"@,
        HTML@ == "text/html; charset=utf-8"@,
        PLAIN_TEXT@ == "text/plain; charset=utf-8"@,
{
}

} // verus!
