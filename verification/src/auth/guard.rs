//! Which account a request is admitted as, by what its handler asks for.

use vstd::prelude::*;

use crate::answers;
use crate::auth::entitlement;
use crate::auth::entitlement::{EnforcementMode, EntitledUser};
use crate::auth::rejection::AuthRejection;
use crate::auth::request;
use crate::auth::request::{Claims, User};
use crate::chunks;
use crate::error;
use crate::http;
use crate::metadata;
use crate::route;
use crate::route::{guard, Guard, Handler};

verus! {

/// The account that a handler goes on with.
#[derive(Clone, Copy)]
pub enum Admitted {
    User(User),
    Entitled(EntitledUser),
}

/// What becomes of a request with these claims at the time `now`, by what is
/// asked of it.
pub open spec fn admittance(
    asked: Guard,
    claims: Option<Claims>,
    mode: EnforcementMode,
    now: u64,
) -> Result<Admitted, AuthRejection> {
    match asked {
        Guard::Authenticated => match request::authenticated(claims) {
            Ok(user) => Ok(Admitted::User(user)),
            Err(rejection) => Err(rejection),
        },
        Guard::Entitled => match entitlement::admission(claims, mode, now) {
            Ok(user) => Ok(Admitted::Entitled(user)),
            Err(rejection) => Err(rejection),
        },
    }
}

/// Admits a request to a handler, or says why it is turned away.
pub fn admit_to(
    handler: Handler,
    claims: Option<Claims>,
    mode: EnforcementMode,
    now: u64,
) -> (admitted: Result<Admitted, AuthRejection>)
    ensures
        admitted == admittance(route::guard_of(handler), claims, mode, now),
{
    match guard(handler) {
        Guard::Authenticated => match User::from_request_parts(claims) {
            Ok(user) => Ok(Admitted::User(user)),
            Err(rejection) => Err(rejection),
        },
        Guard::Entitled => match EntitledUser::from_request_parts(claims, mode, now) {
            Ok(user) => Ok(Admitted::Entitled(user)),
            Err(rejection) => Err(rejection),
        },
    }
}

/// Without the claims of a valid token, every route of the server answers 401,
/// with the rejection's JSON body and no page in its place.
pub proof fn law_without_claims_every_route_answers_401(i: int, mode: EnforcementMode, now: u64)
    requires
        0 <= i < (chunks::routes() + metadata::routes()).len(),
    ensures
        ({
            let handler = (chunks::routes() + metadata::routes())[i].handler;
            let answer = admittance(route::guard_of(handler), None, mode, now);
            &&& answer == Err::<Admitted, AuthRejection>(AuthRejection::Unauthorized)
            &&& answer->Err_0.status() == http::UNAUTHORIZED
            &&& !error::gets_page(http::head(answer->Err_0.status(), http::JSON@))
        }),
{
    answers::law_a_rejection_keeps_its_body(AuthRejection::Unauthorized);
}

/// A request with claims is turned away exactly where entitlement is enforced
/// and missing, and by every handler but the one that says whether an account
/// has files.
pub proof fn law_a_plan_is_asked_for_but_to_see_whether_there_are_files(
    handler: Handler,
    claim: Claims,
    mode: EnforcementMode,
    now: u64,
)
    ensures
        ({
            let answer = admittance(route::guard_of(handler), Some(claim), mode, now);
            &&& answer is Err <==> handler != Handler::HasFiles && mode == EnforcementMode::Enforce
                && !(claim.sync_until matches Some(until) && now < until)
            &&& answer is Err ==> answer->Err_0 == AuthRejection::PaymentRequired
        }),
{
}

/// A request that is admitted goes on as the account of its token.
pub proof fn law_a_request_is_admitted_as_its_own_account(
    handler: Handler,
    claim: Claims,
    mode: EnforcementMode,
    now: u64,
)
    ensures
        match admittance(route::guard_of(handler), Some(claim), mode, now) {
            Ok(Admitted::User(user)) => handler == Handler::HasFiles && user.id == claim.uid,
            Ok(Admitted::Entitled(user)) => handler != Handler::HasFiles && user.id == claim.uid,
            Err(_) => true,
        },
{
}

} // verus!
