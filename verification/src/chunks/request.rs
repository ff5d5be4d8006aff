//! The content type that a request announces.

use vstd::prelude::*;

use crate::text;

verus! {

/// The text of a request's `Content-Type` header; empty where there is none or
/// it is not text.
pub struct RawContentType(pub String);

/// The text of a header that may be missing; empty unless there is one that is
/// text.
pub open spec fn content_type_text(header: Option<Seq<u8>>) -> Seq<char> {
    match header {
        None => Seq::empty(),
        Some(value) => match text::header_chars(value) {
            Some(text) => text,
            None => Seq::empty(),
        },
    }
}

impl RawContentType {
    /// Reads the `Content-Type` header of a request.
    pub fn from_request_parts(header: Option<&[u8]>) -> (content_type: RawContentType)
        ensures
            content_type.0@ == content_type_text(text::header_view(header)),
    {
        match header {
            None => RawContentType(String::new()),
            Some(value) => match text::header_text(value) {
                Some(text) => RawContentType(text),
                None => RawContentType(String::new()),
            },
        }
    }
}

/// A content type that is text is kept whole; where there is none, or it is
/// not text, it is empty.
pub proof fn law_a_content_type_is_kept_whole(value: Seq<u8>)
    ensures
        content_type_text(None).len() == 0,
        text::header_chars(value) is None ==> content_type_text(Some(value)).len() == 0,
        text::header_chars(value) is Some ==> Some(content_type_text(Some(value)))
            == text::header_chars(value),
{
}

} // verus!
