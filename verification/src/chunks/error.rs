//! Why a chunk request fails, and how that is answered.

use vstd::prelude::*;

use crate::http;
use crate::http::{bare, Response, INTERNAL_SERVER_ERROR, NOT_FOUND};

verus! {

/// Why a chunk request fails.
pub enum ChunkError {
    /// The content type is not the one of the route.
    UnmatchedFormat,
    /// The chunk storage failed.
    Io,
    /// The request could not be worked through; the handler gave up on it.
    Panicked,
}

impl ChunkError {
    /// A content type that is not the route's is answered as if there were no
    /// route; everything else is the server's failure.
    pub open spec fn status(self) -> u16 {
        match self {
            ChunkError::UnmatchedFormat => NOT_FOUND,
            ChunkError::Io => INTERNAL_SERVER_ERROR,
            ChunkError::Panicked => INTERNAL_SERVER_ERROR,
        }
    }

    /// The answer: a bare status.
    pub fn into_response(self) -> (response: Response<String>)
        ensures
            response.head() == http::bare_head(self.status()),
            response.body@.len() == 0,
    {
        match self {
            ChunkError::UnmatchedFormat => bare(NOT_FOUND),
            ChunkError::Io => bare(INTERNAL_SERVER_ERROR),
            ChunkError::Panicked => bare(INTERNAL_SERVER_ERROR),
        }
    }
}

} // verus!
