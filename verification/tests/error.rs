use mnestic::error::ApiError;
use mnestic::json::render;

fn answer(e: ApiError) -> (u16, String) {
    let response = e.into_response();
    (response.status, render(&response.body))
}

#[test]
fn internal_error_body_does_not_leak_detail() {
    let (status, body) = answer(ApiError::Internal("relation mnestic_secret does not exist".into()));
    assert_eq!(status, 500);
    assert!(!body.contains("mnestic_secret"), "internal detail leaked: {body}");
    assert!(body.contains("internal error"));
}

#[test]
fn each_error_has_its_status_and_message() {
    assert_eq!(answer(ApiError::Unauthorized), (401, r#"{"error":"unauthorized"}"#.to_string()));
    assert_eq!(answer(ApiError::BadRequest("q is empty".into())), (400, r#"{"error":"q is empty"}"#.to_string()));
    assert_eq!(answer(ApiError::NotFound), (404, r#"{"error":"not found"}"#.to_string()));
    assert_eq!(
        answer(ApiError::TooManyRequests),
        (429, r#"{"error":"rate limit exceeded"}"#.to_string())
    );
    assert_eq!(answer(ApiError::Internal("x".into())), (500, r#"{"error":"internal error"}"#.to_string()));
}

#[test]
fn internal_causes_are_alike() {
    assert_eq!(answer(ApiError::Internal("a".into())), answer(ApiError::Internal("b".into())));
}
