//! The bearer token of a request and the user it stands for.

use vstd::prelude::*;

use crate::auth::rejection::AuthRejection;
use crate::text;

verus! {

/// What precedes the token in an `Authorization` header.
pub const BEARER: &'static str = "Bearer ";

/// What a valid token claims: the account, and until when (in seconds since
/// the epoch) it is entitled to sync, where it is at all.
pub struct Claims {
    pub uid: i32,
    pub sync_until: Option<u64>,
}

/// An authenticated account.
#[derive(Clone, Copy)]
pub struct User {
    pub id: i32,
}

/// The token that an `Authorization` header carries: what follows `Bearer ` in
/// a header that is text.
pub open spec fn token_of(authorization: Option<Seq<u8>>) -> Option<Seq<char>> {
    match authorization {
        None => None,
        Some(value) => match text::header_chars(value) {
            None => None,
            Some(text) => if BEARER@.is_prefix_of(text) {
                Some(text.skip(BEARER@.len() as int))
            } else {
                None
            },
        },
    }
}

/// Pulls the token off a request's `Authorization` header. A request without
/// one carries no claims.
pub fn bearer_token(authorization: Option<&[u8]>) -> (token: Option<String>)
    ensures
        text::text_view(token) == token_of(text::header_view(authorization)),
{
    match authorization {
        None => None,
        Some(value) => match text::header_text(value) {
            None => None,
            Some(text) => text::strip_prefix(text.as_str(), BEARER),
        },
    }
}

/// A header of `Bearer ` and a token carries that token.
pub proof fn law_a_bearer_header_carries_its_token(value: Seq<u8>, token: Seq<char>)
    requires
        text::header_chars(value) == Some(BEARER@ + token),
    ensures
        token_of(Some(value)) == Some(token),
{
    let text = BEARER@ + token;
    assert(text.subrange(0, BEARER@.len() as int) == BEARER@);
    assert(text.skip(BEARER@.len() as int) == token);
}

/// The account that claims stand for; without any, a request is unauthorized.
pub open spec fn authenticated(claims: Option<Claims>) -> Result<User, AuthRejection> {
    match claims {
        Some(claim) => Ok(User { id: claim.uid }),
        None => Err(AuthRejection::Unauthorized),
    }
}

impl User {
    /// The account whose claims the request's token decoded to; a request
    /// without a valid token is unauthorized.
    pub fn from_request_parts(claims: Option<Claims>) -> (user: Result<User, AuthRejection>)
        ensures
            user == authenticated(claims),
    {
        match claims {
            Some(claim) => Ok(User { id: claim.uid }),
            None => Err(AuthRejection::Unauthorized),
        }
    }
}

/// A header carries a token exactly where its text is `Bearer ` and then that
/// token, of whatever length; without a header there is none.
pub proof fn law_the_token_is_what_follows_bearer(value: Seq<u8>, token: Seq<char>)
    ensures
        token_of(None) is None,
        token_of(Some(value)) == Some(token) <==> text::header_chars(value) == Some(
            "Bearer "@ + token,
        ),
{
    if text::header_chars(value) == Some("Bearer "@ + token) {
        law_a_bearer_header_carries_its_token(value, token);
    }
    if token_of(Some(value)) == Some(token) {
        let whole = text::header_chars(value)->0;
        assert(whole =~= "Bearer "@ + token);
    }
}

/// Every valid token stands for its own account, and without one a request is
/// unauthorized.
pub proof fn law_a_token_stands_for_its_account(claim: Claims)
    ensures
        authenticated(Some(claim)) == Ok::<User, AuthRejection>(User { id: claim.uid }),
        authenticated(None) == Err::<User, AuthRejection>(AuthRejection::Unauthorized),
{
}

} // verus!
