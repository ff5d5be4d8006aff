//! Requests for a chunk that does not exist, with and without a token, while
//! entitlement is or is not enforced.

use cooklang_sync_server::auth::entitlement::{enforcement_mode, EnforcementMode, EntitledUser};
use cooklang_sync_server::auth::guard::{admit_to, Admitted};
use cooklang_sync_server::auth::rejection::{sync_upgrade_url, AuthRejection};
use cooklang_sync_server::auth::request::{bearer_token, Claims, User};
use cooklang_sync_server::chunks::retrieve::{retrieve, retrieved};
use cooklang_sync_server::create_server;
use cooklang_sync_server::error::{default_error_pages, Paged};
use cooklang_sync_server::route::{guard, Guard, Handler};
use serde_json::Value;

const NOW: u64 = 1_700_000_000;

/// Answers a GET for a chunk that is not stored. `enforcement` is the
/// configured mode.
fn get_chunk(claims: Option<Claims>, enforcement: Option<&str>) -> (u16, String) {
    let mode = enforcement_mode(enforcement.map(str::to_owned));
    let response = match EntitledUser::from_request_parts(claims, mode, NOW) {
        Err(rejection) => rejection.into_response(None),
        Ok(_) => match retrieve("doesnotexist12345") {
            Err(response) => response,
            Ok(_) => match retrieved::<String>(None) {
                Ok(response) => response,
                Err(response) => response,
            },
        },
    };

    match default_error_pages(response) {
        Paged::Untouched(response) => (response.status, response.body),
        Paged::Page(response) => (response.status, response.body),
    }
}

fn as_json(body: &str) -> Value {
    serde_json::from_str(body).expect("rejection must return a JSON body")
}

#[test]
fn request_without_a_token_is_rejected_with_401_and_the_contract_body() {
    let (status, body) = get_chunk(None, None);

    assert_eq!(status, 401);
    assert_eq!(body, r#"{"error":"unauthorized"}"#);
    assert_eq!(as_json(&body)["error"], "unauthorized");
}

#[test]
fn missing_entitlement_under_enforce_is_rejected_with_402_and_the_contract_body() {
    let (status, body) = get_chunk(Some(Claims { uid: 1, sync_until: None }), Some("enforce"));

    assert_eq!(status, 402);
    let json = as_json(&body);
    assert_eq!(json.as_object().unwrap().len(), 3);
    assert_eq!(json["error"], "sync_requires_plan");
    assert_eq!(
        json["message"],
        "Sync needs a Cook Basic or Pro plan. Accounts from before the paywall sync free."
    );
    assert_eq!(json["upgrade_url"], "https://cook.md/pricing");
}

#[test]
fn missing_entitlement_under_off_is_not_blocked_by_the_guard() {
    let (status, _body) = get_chunk(Some(Claims { uid: 1, sync_until: None }), None);

    assert_ne!(status, 401);
    assert_ne!(status, 402);
    assert_eq!(status, 404);
}

#[test]
fn an_entitlement_counts_until_it_runs_out() {
    for (until, status) in [(NOW + 1, 404), (NOW, 402), (NOW - 1, 402)] {
        let claims = Claims { uid: 1, sync_until: Some(until) };
        assert_eq!(get_chunk(Some(claims), Some("enforce")).0, status, "until {until}");
    }
}

#[test]
fn enforcement_is_off_unless_it_is_asked_for() {
    for (configured, mode) in [
        (None, EnforcementMode::Off),
        (Some(""), EnforcementMode::Off),
        (Some("off"), EnforcementMode::Off),
        (Some("Enforce"), EnforcementMode::Off),
        (Some("enforced"), EnforcementMode::Off),
        (Some("enforce"), EnforcementMode::Enforce),
    ] {
        assert!(enforcement_mode(configured.map(str::to_owned)) == mode, "{configured:?}");
    }
    assert_eq!(EnforcementMode::Off.name(), "off");
    assert_eq!(EnforcementMode::Enforce.name(), "enforce");
}

#[test]
fn the_upgrade_url_can_be_configured_and_is_escaped() {
    assert_eq!(sync_upgrade_url(None), "https://cook.md/pricing");
    assert_eq!(sync_upgrade_url(Some("https://example.org/".to_owned())), "https://example.org/");

    let odd = "https://example.org/?q=\"a\\b\"\u{1}\u{8}\t\n\u{c}\r\u{1f}é".to_owned();
    let response = AuthRejection::PaymentRequired.into_response(Some(odd.clone()));

    assert_eq!(response.status, 402);
    assert_eq!(response.content_type.unwrap(), b"application/json");
    assert!(response.body.ends_with(
        r#""upgrade_url":"https://example.org/?q=\"a\\b\"\u0001\b\t\n\f\r\u001fé"}"#
    ));
    assert_eq!(as_json(&response.body)["upgrade_url"], odd);
}

#[test]
fn a_token_follows_the_word_bearer() {
    assert_eq!(bearer_token(Some(b"Bearer abc.def")).as_deref(), Some("abc.def"));
    assert_eq!(bearer_token(Some(b"Bearer ")).as_deref(), Some(""));
    assert_eq!(bearer_token(Some(b"Bearer")), None);
    assert_eq!(bearer_token(Some(b"bearer abc")), None);
    assert_eq!(bearer_token(Some(b"Basic abc")), None);
    assert_eq!(bearer_token(Some(b"Bearer \xff")), None);
    assert_eq!(bearer_token(Some(b"Bearer a\x7f")), None);
    assert_eq!(bearer_token(Some(b"Bearer a\tb")).as_deref(), Some("a\tb"));
    assert_eq!(bearer_token(None), None);
}

#[test]
fn a_user_is_the_account_of_the_token() {
    let user = User::from_request_parts(Some(Claims { uid: 42, sync_until: None }));
    assert_eq!(user.ok().unwrap().id, 42);
    assert!(matches!(User::from_request_parts(None), Err(AuthRejection::Unauthorized)));

    let entitled = EntitledUser::from_request_parts(
        Some(Claims { uid: 43, sync_until: None }),
        EnforcementMode::Off,
        NOW,
    );
    assert_eq!(entitled.ok().unwrap().id, 43);
}

#[test]
fn every_route_asks_for_a_token_and_all_but_one_for_a_plan() {
    let table = create_server();
    assert_eq!(table.len(), 9);
    for route in &table {
        let none = admit_to(route.handler, None, EnforcementMode::Off, NOW);
        assert!(matches!(none, Err(AuthRejection::Unauthorized)), "{}", route.path);

        let claims = Claims { uid: 5, sync_until: None };
        let unpaid = admit_to(route.handler, Some(claims), EnforcementMode::Enforce, NOW);
        if route.path == "/metadata/has_files" {
            assert!(guard(route.handler) == Guard::Authenticated);
            assert!(matches!(unpaid, Ok(Admitted::User(User { id: 5 }))));
        } else {
            assert!(guard(route.handler) == Guard::Entitled, "{}", route.path);
            assert!(matches!(unpaid, Err(AuthRejection::PaymentRequired)), "{}", route.path);
        }
    }

    let paid = Claims { uid: 6, sync_until: Some(NOW + 1) };
    let admitted = admit_to(Handler::Poll, Some(paid), EnforcementMode::Enforce, NOW);
    assert!(matches!(admitted, Ok(Admitted::Entitled(EntitledUser { id: 6 }))));
}
