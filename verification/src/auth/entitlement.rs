//! Whether an account is entitled to sync, and whether that is enforced.

use vstd::prelude::*;

use crate::auth::rejection::AuthRejection;
use crate::auth::request;
use crate::auth::request::Claims;
use crate::text;

verus! {

/// Whether a missing entitlement turns a request away.
#[derive(Clone, Copy, PartialEq, Eq, Structural)]
pub enum EnforcementMode {
    Off,
    Enforce,
}

/// The configuration value that switches enforcement on.
pub const ENFORCE: &'static str = "enforce";

/// The name of the mode without enforcement.
pub const OFF: &'static str = "off";

/// The mode that a configuration value selects: enforcement is off unless it
/// is asked for.
pub open spec fn mode_of(configured: Option<Seq<char>>) -> EnforcementMode {
    if configured == Some(ENFORCE@) {
        EnforcementMode::Enforce
    } else {
        EnforcementMode::Off
    }
}

/// The mode that a configuration value selects.
pub fn enforcement_mode(configured: Option<String>) -> (mode: EnforcementMode)
    ensures
        mode == mode_of(text::text_view(configured)),
{
    match configured {
        Some(value) => if text::same(value.as_str(), ENFORCE) {
            EnforcementMode::Enforce
        } else {
            EnforcementMode::Off
        },
        None => EnforcementMode::Off,
    }
}

impl EnforcementMode {
    pub open spec fn name_view(self) -> Seq<char> {
        match self {
            EnforcementMode::Off => OFF@,
            EnforcementMode::Enforce => ENFORCE@,
        }
    }

    /// The mode's name, as it is configured and logged.
    pub fn name(self) -> (name: &'static str)
        ensures
            name@ == self.name_view(),
    {
        match self {
            EnforcementMode::Off => OFF,
            EnforcementMode::Enforce => ENFORCE,
        }
    }
}

/// Whether an entitlement covers the time `now`: it is there, and has not run
/// out.
pub open spec fn is_entitled(sync_until: Option<u64>, now: u64) -> bool {
    sync_until matches Some(until) && now < until
}

/// An authenticated account that may sync.
#[derive(Clone, Copy)]
pub struct EntitledUser {
    pub id: i32,
}

/// What becomes of a request with these claims: unauthorized without any; with
/// them, turned away exactly where entitlement is enforced and missing.
pub open spec fn admission(
    claims: Option<Claims>,
    mode: EnforcementMode,
    now: u64,
) -> Result<EntitledUser, AuthRejection> {
    match claims {
        None => Err(AuthRejection::Unauthorized),
        Some(claim) => if mode == EnforcementMode::Enforce && !is_entitled(claim.sync_until, now) {
            Err(AuthRejection::PaymentRequired)
        } else {
            Ok(EntitledUser { id: claim.uid })
        },
    }
}

impl EntitledUser {
    /// The account whose claims the request's token decoded to, if it may sync
    /// at the time `now` (in seconds since the epoch).
    pub fn from_request_parts(claims: Option<Claims>, mode: EnforcementMode, now: u64) -> (user:
        Result<EntitledUser, AuthRejection>)
        ensures
            user == admission(claims, mode, now),
    {
        match claims {
            None => Err(AuthRejection::Unauthorized),
            Some(claim) => {
                let entitled = match claim.sync_until {
                    Some(until) => now < until,
                    None => false,
                };
                if mode == EnforcementMode::Enforce && !entitled {
                    Err(AuthRejection::PaymentRequired)
                } else {
                    Ok(EntitledUser { id: claim.uid })
                }
            },
        }
    }
}

/// What counts as authenticated is the same for users and for entitled users,
/// and both are the account of the token.
pub proof fn law_entitled_users_are_authenticated(
    claims: Option<Claims>,
    mode: EnforcementMode,
    now: u64,
)
    ensures
        request::authenticated(claims) is Err <==> admission(claims, mode, now) == Err::<
            EntitledUser,
            AuthRejection,
        >(AuthRejection::Unauthorized),
        admission(claims, mode, now) matches Ok(user) ==> request::authenticated(claims) matches Ok(
            same,
        ) && same.id == user.id,
{
}

/// While enforcement is off, no account is turned away for want of a plan.
pub proof fn law_off_never_asks_for_payment(claims: Option<Claims>, now: u64)
    ensures
        admission(claims, EnforcementMode::Off, now) != Err::<EntitledUser, AuthRejection>(
            AuthRejection::PaymentRequired,
        ),
        claims is Some ==> admission(claims, EnforcementMode::Off, now) is Ok,
{
}

/// Under enforcement an account may sync exactly until its plan runs out,
/// however far off that is; without a plan it is asked to pay. A later end of
/// the plan never takes the admission away.
pub proof fn law_an_account_may_sync_until_its_plan_runs_out(
    uid: i32,
    until: u64,
    later: u64,
    now: u64,
)
    ensures
        ({
            let mode = EnforcementMode::Enforce;
            let paid = admission(Some(Claims { uid, sync_until: Some(until) }), mode, now);
            let longer = admission(Some(Claims { uid, sync_until: Some(later) }), mode, now);
            let unpaid = admission(Some(Claims { uid, sync_until: None }), mode, now);
            &&& now < until ==> paid == Ok::<EntitledUser, AuthRejection>(EntitledUser { id: uid })
            &&& now >= until ==> paid == Err::<EntitledUser, AuthRejection>(
                AuthRejection::PaymentRequired,
            )
            &&& unpaid == Err::<EntitledUser, AuthRejection>(AuthRejection::PaymentRequired)
            &&& paid is Ok && until <= later ==> longer is Ok
        }),
{
}

/// While enforcement is off, every account is admitted as itself, whatever its
/// plan. Without claims nobody is, in either mode.
pub proof fn law_without_enforcement_every_account_is_admitted(
    claim: Claims,
    mode: EnforcementMode,
    now: u64,
)
    ensures
        admission(Some(claim), EnforcementMode::Off, now) == Ok::<EntitledUser, AuthRejection>(
            EntitledUser { id: claim.uid },
        ),
        admission(None, mode, now) == Err::<EntitledUser, AuthRejection>(
            AuthRejection::Unauthorized,
        ),
{
}

/// One configuration value alone switches enforcement on.
pub proof fn law_only_one_value_switches_enforcement_on(configured: Option<Seq<char>>)
    ensures
        mode_of(configured) == EnforcementMode::Enforce <==> configured == Some("enforce"@),
        mode_of(Some(EnforcementMode::Enforce.name_view())) == EnforcementMode::Enforce,
        mode_of(Some(EnforcementMode::Off.name_view())) == EnforcementMode::Off,
{
    reveal_strlit("enforce");
    reveal_strlit("off");
    assert("enforce"@.len() != "off"@.len());
}

} // verus!
