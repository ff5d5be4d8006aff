//! Query strings: one that cannot be read is answered with a 422.

use vstd::prelude::*;

use crate::error::UnprocessableEntity;

verus! {

/// The query of a request, read into its parts.
pub struct Query<T>(pub T);

impl<T> Query<T> {
    /// Takes what reading the query string gave, `None` where it is missing or
    /// has the wrong shape.
    pub fn from_request_parts(parsed: Option<T>) -> (query: Result<Query<T>, UnprocessableEntity>)
        ensures
            query == match parsed {
                Some(parts) => Ok::<Query<T>, UnprocessableEntity>(Query(parts)),
                None => Err(UnprocessableEntity),
            },
    {
        match parsed {
            Some(parts) => Ok(Query(parts)),
            None => Err(UnprocessableEntity),
        }
    }
}

} // verus!
