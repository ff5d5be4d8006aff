//! JSON error bodies for the statuses that authentication and entitlement
//! reject with.

use vstd::prelude::*;

use crate::http;
use crate::http::{Response, JSON, PAYMENT_REQUIRED, UNAUTHORIZED};
use crate::json;
use crate::json::json_string;
use crate::text;

verus! {

/// Where an account is sent to upgrade, unless configured otherwise.
pub const DEFAULT_UPGRADE_URL: &'static str = "https://cook.md/pricing";

/// What an account without a plan is told.
pub const PLAN_MESSAGE: &'static str =
    "Sync needs a Cook Basic or Pro plan. Accounts from before the paywall sync free.";

/// The configured upgrade address, or the default where none is.
pub open spec fn upgrade_url(configured: Option<Seq<char>>) -> Seq<char> {
    match configured {
        Some(url) => url,
        None => DEFAULT_UPGRADE_URL@,
    }
}

/// The configured upgrade address, or the default where none is.
pub fn sync_upgrade_url(configured: Option<String>) -> (url: String)
    ensures
        url@ == upgrade_url(text::text_view(configured)),
{
    match configured {
        Some(url) => url,
        None => DEFAULT_UPGRADE_URL.to_owned(),
    }
}

/// Why a request is turned away: no valid token, or no plan that includes sync.
pub enum AuthRejection {
    Unauthorized,
    PaymentRequired,
}

/// The JSON object of these members, in order; every value is a string.
pub open spec fn string_object(members: Seq<(Seq<char>, Seq<char>)>) -> Seq<char> {
    "{"@ + text::joined(
        members.map_values(
            |m: (Seq<char>, Seq<char>)| json::quoted(m.0) + ":"@ + json::quoted(m.1),
        ),
        ","@,
    ) + "}"@
}

impl AuthRejection {
    /// The status of the answer.
    pub open spec fn status(self) -> u16 {
        match self {
            AuthRejection::Unauthorized => UNAUTHORIZED,
            AuthRejection::PaymentRequired => PAYMENT_REQUIRED,
        }
    }

    /// The members of the answer's JSON body.
    pub open spec fn members(self, upgrade_url: Seq<char>) -> Seq<(Seq<char>, Seq<char>)> {
        match self {
            AuthRejection::Unauthorized => seq![("error"@, "unauthorized"@)],
            AuthRejection::PaymentRequired => seq![
                ("error"@, "sync_requires_plan"@),
                ("message"@, PLAN_MESSAGE@),
                ("upgrade_url"@, upgrade_url),
            ],
        }
    }

    /// The answer: a JSON body that names the error, and for a missing plan
    /// what to do about it.
    pub fn into_response(self, configured_url: Option<String>) -> (response: Response<String>)
        ensures
            response.head() == http::head(self.status(), JSON@),
            response.body@ == string_object(
                self.members(upgrade_url(text::text_view(configured_url))),
            ),
    {
        match self {
            AuthRejection::Unauthorized => {
                let members = vec![member("error", "unauthorized")];
                proof {
                    let ghost_members = self.members(upgrade_url(text::text_view(configured_url)));
                    lemma_rendered(members@, ghost_members);
                }
                Response::with_type(UNAUTHORIZED, JSON, object(&members))
            },
            AuthRejection::PaymentRequired => {
                let url = sync_upgrade_url(configured_url);
                let members = vec![
                    member("error", "sync_requires_plan"),
                    member("message", PLAN_MESSAGE),
                    member("upgrade_url", url.as_str()),
                ];
                proof {
                    let ghost_members = self.members(upgrade_url(text::text_view(configured_url)));
                    lemma_rendered(members@, ghost_members);
                }
                Response::with_type(PAYMENT_REQUIRED, JSON, object(&members))
            },
        }
    }
}

fn member(key: &str, value: &str) -> (json: String)
    ensures
        json@ == json::quoted(key@) + ":"@ + json::quoted(value@),
{
    json_string(key).concat(":").concat(json_string(value).as_str())
}

fn object(members: &Vec<String>) -> (json: String)
    ensures
        json@ == "{"@ + text::joined(members@.map_values(|m: String| m@), ","@) + "}"@,
{
    "{".to_owned().concat(text::join(members, ",").as_str()).concat("}")
}

proof fn lemma_rendered(rendered: Seq<String>, members: Seq<(Seq<char>, Seq<char>)>)
    requires
        rendered.len() == members.len(),
        forall|i: int|
            0 <= i < members.len() ==> (#[trigger] rendered[i])@ == json::quoted(
                members[i].0,
            ) + ":"@ + json::quoted(members[i].1),
    ensures
        rendered.map_values(|m: String| m@) == members.map_values(
            |m: (Seq<char>, Seq<char>)| json::quoted(m.0) + ":"@ + json::quoted(m.1),
        ),
{
}

/// A configured address is kept whole, whatever it is.
pub proof fn law_a_configured_address_is_kept(url: Seq<char>)
    ensures
        upgrade_url(Some(url)) == url,
        upgrade_url(None) == "https://cook.md/pricing"@,
{
}

/// A JSON object grows member by member: each is its quoted key and its quoted
/// value, with commas between them and braces around all.
pub proof fn law_an_object_grows_member_by_member(
    members: Seq<(Seq<char>, Seq<char>)>,
    key: Seq<char>,
    value: Seq<char>,
)
    ensures
        string_object(Seq::empty()) == "{}"@,
        string_object(seq![(key, value)]) == "{"@ + json::quoted(key) + ":"@ + json::quoted(value)
            + "}"@,
        members.len() > 0 ==> string_object(members.push((key, value))) == string_object(
            members,
        ).drop_last() + ","@ + json::quoted(key) + ":"@ + json::quoted(value) + "}"@,
{
    reveal_strlit("{");
    reveal_strlit("}");
    reveal_strlit("{}");
    let render = |m: (Seq<char>, Seq<char>)| json::quoted(m.0) + ":"@ + json::quoted(m.1);
    let none = Seq::<(Seq<char>, Seq<char>)>::empty();
    assert(none.map_values(render) == Seq::<Seq<char>>::empty());
    assert(string_object(none) =~= "{}"@);
    let one = seq![(key, value)];
    assert(one.map_values(render) == seq![render((key, value))]);
    assert(string_object(one) =~= "{"@ + json::quoted(key) + ":"@ + json::quoted(value) + "}"@);
    if members.len() > 0 {
        let more = members.push((key, value));
        assert(more.map_values(render) == members.map_values(render).push(render((key, value))));
        assert(members.map_values(render).push(render((key, value))).drop_last()
            == members.map_values(render));
        assert(string_object(members).drop_last() =~= "{"@ + text::joined(
            members.map_values(render),
            ","@,
        ));
        assert(string_object(more) =~= string_object(members).drop_last() + ","@ + json::quoted(key)
            + ":"@ + json::quoted(value) + "}"@);
    }
}

/// What a rejection is answered with: 401 with the error alone, whatever the
/// address; 402 with the error, the message and last the whole address.
pub proof fn law_a_rejection_says_what_is_to_be_done(url: Seq<char>)
    ensures
        AuthRejection::Unauthorized.status() == 401,
        AuthRejection::Unauthorized.members(url) == seq![("error"@, "unauthorized"@)],
        AuthRejection::PaymentRequired.status() == 402,
        AuthRejection::PaymentRequired.members(url) == seq![
            ("error"@, "sync_requires_plan"@),
            ("message"@, PLAN_MESSAGE@),
        ].push(("upgrade_url"@, url)),
        string_object(AuthRejection::PaymentRequired.members(url)) == string_object(
            seq![("error"@, "sync_requires_plan"@), ("message"@, PLAN_MESSAGE@)],
        ).drop_last() + ","@ + json::quoted("upgrade_url"@) + ":"@ + json::quoted(url) + "}"@,
{
    let first = seq![("error"@, "sync_requires_plan"@), ("message"@, PLAN_MESSAGE@)];
    assert(AuthRejection::PaymentRequired.members(url) =~= first.push(("upgrade_url"@, url)));
    law_an_object_grows_member_by_member(first, "upgrade_url"@, url);
}

} // verus!
