use floatctf_api::error::UniError;
use floatctf_api::response::{QueryParams, UniResponse};

#[test]
fn error_codes_follow_the_kind_of_error() {
    assert_eq!(UniError::DatabaseError("x".to_string()).code(), 500);
    assert_eq!(UniError::InternalError("x".to_string()).code(), 500);
    assert_eq!(UniError::NotFound("x".to_string()).code(), 404);
    assert_eq!(UniError::AuthError.code(), 401);
    assert_eq!(UniError::CustomError("x".to_string()).code(), 400);
    assert_eq!(UniError::SQLError("x".to_string()).code(), 400);
    assert_eq!(UniError::BadRequest("x".to_string()).code(), 400);
    assert_eq!(UniError::NotEnoughPermission.code(), 403);
}

#[test]
fn error_messages_match_their_display_text() {
    assert_eq!(UniError::DatabaseError("down".to_string()).message(), "Database error: down");
    assert_eq!(UniError::InternalError("oops".to_string()).message(), "Internal error: oops");
    assert_eq!(UniError::NotFound("event".to_string()).message(), "Not Found: event");
    assert_eq!(UniError::AuthError.message(), "Authentication error");
    assert_eq!(UniError::CustomError("plain".to_string()).message(), "plain");
    assert_eq!(UniError::SQLError("bad".to_string()).message(), "SQL Execution Error: bad");
    assert_eq!(UniError::BadRequest("no".to_string()).message(), "Bad Request: no");
    assert_eq!(UniError::NotEnoughPermission.message(), "Not Enough Permission");
}

#[test]
fn error_response_carries_code_and_message() {
    let r = UniError::NotFound("team not found".to_string()).to_response();
    assert_eq!(r.code, 404);
    assert_eq!(r.message, "Not Found: team not found");
    assert!(r.data.is_none());
    assert!(r.meta.is_none());
}

#[test]
fn ok_responses_say_ok() {
    let r = UniResponse::ok(Some(7u32));
    assert_eq!(r.code, 0);
    assert_eq!(r.message, "OK");
    assert_eq!(r.data, Some(7));
    assert!(r.meta.is_none());

    let n: UniResponse<u32> = UniResponse::ok_none();
    assert_eq!(n.code, 0);
    assert_eq!(n.message, "OK");
    assert!(n.data.is_none());

    let meta = QueryParams { offset: None, limit: Some(10), page: Some(2), total: Some(35), filter: None };
    let m = UniResponse::ok_meta(Some(vec![1u8, 2]), Some(meta));
    assert_eq!(m.code, 0);
    assert_eq!(m.data, Some(vec![1, 2]));
    assert_eq!(m.meta.as_ref().unwrap().total, Some(35));
    assert_eq!(m.meta.as_ref().unwrap().page, Some(2));
}

#[test]
fn err_response_keeps_code_and_message() {
    let r: UniResponse<()> = UniResponse::err(418, "teapot".to_string());
    assert_eq!(r.code, 418);
    assert_eq!(r.message, "teapot");
    assert!(r.data.is_none());
    assert!(r.meta.is_none());
}

#[test]
fn answers_echo_the_total() {
    let q = QueryParams { offset: None, limit: Some(5), page: Some(1), total: None, filter: Some("name:x".into()) };
    let r = q.with_total(12);
    assert_eq!(r.total, Some(12));
    assert_eq!(r.limit, Some(5));
    assert_eq!(r.filter, Some("name:x".to_string()));
}
