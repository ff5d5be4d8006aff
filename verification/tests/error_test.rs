use axum::http::StatusCode;
use cooklang_sync_server::error::{
    default_error_pages, error_page, AppError, Paged, UnprocessableEntity,
};
use cooklang_sync_server::extract::Query;
use cooklang_sync_server::http::{bare, Response};

/// Byte lengths of the pages. A template edit that changed a single character
/// would move these numbers.
#[test]
fn every_page_is_the_length_rocket_served() {
    for (status, length) in [
        (StatusCode::NOT_FOUND, 435),
        (StatusCode::PAYLOAD_TOO_LARGE, 477),
        (StatusCode::UNSUPPORTED_MEDIA_TYPE, 501),
        (StatusCode::UNPROCESSABLE_ENTITY, 496),
        (StatusCode::INTERNAL_SERVER_ERROR, 488),
    ] {
        assert_eq!(error_page(status.as_u16()).expect("page").len(), length, "{status}");
    }
}

#[test]
fn the_404_page_is_reproduced_verbatim() {
    assert_eq!(
        error_page(StatusCode::NOT_FOUND.as_u16()).expect("page"),
        "<!DOCTYPE html>
<html lang=\"en\">
<head>
    <meta charset=\"utf-8\">
    <meta name=\"color-scheme\" content=\"light dark\">
    <title>404 Not Found</title>
</head>
<body align=\"center\">
    <div role=\"main\" align=\"center\">
        <h1>404: Not Found</h1>
        <p>The requested resource could not be found.</p>
        <hr />
    </div>
    <div role=\"contentinfo\" align=\"center\">
        <small>Rocket</small>
    </div>
</body>
</html>"
    );
}

#[test]
fn a_status_rocket_never_produced_has_no_page() {
    assert!(error_page(StatusCode::IM_A_TEAPOT.as_u16()).is_none());
    assert!(error_page(StatusCode::BAD_REQUEST.as_u16()).is_none());
}

#[test]
fn a_json_error_body_is_left_untouched() {
    let response = Response {
        status: StatusCode::UNAUTHORIZED.as_u16(),
        content_type: Some(b"application/json; charset=utf-8".to_vec()),
        body: r#"{"error":"unauthorized"}"#,
    };

    match default_error_pages(response) {
        Paged::Untouched(response) => {
            assert_eq!(response.content_type.unwrap(), b"application/json; charset=utf-8");
            assert_eq!(response.body, r#"{"error":"unauthorized"}"#);
        }
        Paged::Page(_) => panic!("a JSON body must be kept"),
    }
}

#[test]
fn a_success_response_is_left_untouched() {
    let response = Response {
        status: StatusCode::OK.as_u16(),
        content_type: Some(b"text/plain; charset=utf-8".to_vec()),
        body: "chunk-content",
    };

    match default_error_pages(response) {
        Paged::Untouched(response) => {
            assert_eq!(response.status, StatusCode::OK.as_u16());
            assert_eq!(response.content_type.unwrap(), b"text/plain; charset=utf-8");
        }
        Paged::Page(_) => panic!("a success must be kept"),
    }
}

#[test]
fn an_empty_framework_error_gains_the_rocket_page() {
    match default_error_pages(bare(StatusCode::NOT_FOUND.as_u16())) {
        Paged::Page(response) => {
            assert_eq!(response.status, StatusCode::NOT_FOUND.as_u16());
            assert_eq!(response.content_type.unwrap(), b"text/html; charset=utf-8");
        }
        Paged::Untouched(_) => panic!("a bare error must gain its page"),
    }
}

#[test]
fn a_page_is_replaced_by_itself() {
    let page = match default_error_pages(bare(500)) {
        Paged::Page(page) => page,
        Paged::Untouched(_) => panic!("a bare error must gain its page"),
    };
    let body = page.body.clone();

    match default_error_pages(page) {
        Paged::Page(again) => assert_eq!(again.body, body),
        Paged::Untouched(_) => panic!("a page is no JSON"),
    }
}

#[test]
fn an_error_without_a_page_is_left_untouched() {
    for status in [400, 405, 418, 503, 600] {
        assert!(matches!(default_error_pages(bare(status)), Paged::Untouched(_)), "{status}");
    }
}

#[test]
fn a_plain_text_error_is_replaced() {
    let response = Response {
        status: 500,
        content_type: Some(b"text/plain; charset=utf-8".to_vec()),
        body: "Service panicked",
    };

    match default_error_pages(response) {
        Paged::Page(page) => assert_eq!(page.body.len(), 488),
        Paged::Untouched(_) => panic!("only JSON is kept"),
    }
}

#[test]
fn a_failed_query_and_a_failed_database_have_bare_answers() {
    let unreadable = UnprocessableEntity.into_response();
    assert_eq!(unreadable.status, 422);
    assert!(unreadable.content_type.is_none());
    assert!(unreadable.body.is_empty());

    let failed = AppError.into_response();
    assert_eq!(failed.status, 500);
    assert!(failed.content_type.is_none());
    assert!(failed.body.is_empty());
}

#[test]
fn a_query_is_its_parts_or_a_rejection() {
    assert!(matches!(Query::from_request_parts(Some(7)), Ok(Query(7))));
    assert!(Query::<i32>::from_request_parts(None).is_err());
}
