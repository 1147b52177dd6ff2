use mocktail::mock::DEFAULT_PRIORITY;
use mocktail::{Body, Method, Mock, Request, StatusCode, Then, When};

#[test]
fn test_match_counter() {
    let mut mock = Mock::new(When::new().get(), Then::new().ok());
    let request = Request::new(Method::GET, "http://localhost/");
    mock.matches(&request);
    assert_eq!(mock.match_count(), 1);
    mock.matches(&request);
    assert_eq!(mock.match_count(), 2);
    mock.reset();
    assert_eq!(mock.match_count(), 0);
}

#[test]
fn test_limit() {
    let mut mock = Mock::new(When::new().get(), Then::new().ok()).with_limit(2);
    let request = Request::new(Method::GET, "http://localhost/");
    assert!(mock.matches(&request));
    assert!(mock.matches(&request));
    assert!(!mock.matches(&request));
}

#[test]
fn limit_stops_the_counter() {
    let mut mock = Mock::new(When::new().get(), Then::new().ok()).with_limit(1);
    let request = Request::new(Method::GET, "/");
    assert!(mock.matches(&request));
    assert!(!mock.matches(&request));
    assert_eq!(mock.match_count(), 1);
    assert_eq!(mock.limit(), Some(1));
    mock.reset();
    assert!(mock.matches(&request));
}

#[test]
fn a_request_that_does_not_match_is_not_counted() {
    let mut mock = Mock::new(When::new().post(), Then::new().ok());
    let request = Request::new(Method::GET, "/");
    assert!(!mock.matches(&request));
    assert_eq!(mock.match_count(), 0);
}

#[test]
fn accepts_does_not_count() {
    let mock = Mock::new(When::new().get().path("/a"), Then::new().ok());
    assert!(mock.accepts(&Request::new(Method::GET, "/a")));
    assert!(!mock.accepts(&Request::new(Method::GET, "/b")));
    assert_eq!(mock.match_count(), 0);
}

#[test]
fn new_mock_has_defaults() {
    let mock = Mock::new(When::new(), Then::new());
    assert_eq!(mock.priority(), DEFAULT_PRIORITY);
    assert_eq!(mock.priority(), 5);
    assert_eq!(mock.match_count(), 0);
    assert_eq!(mock.limit(), None);
    assert_eq!(mock.response().status().as_u16(), 200);
    assert!(mock.matchers.is_empty());
}

#[test]
fn mock_without_matchers_matches_everything() {
    let mut mock = Mock::new(When::new(), Then::new());
    assert!(mock.matches(&Request::new(Method::PATCH, "/whatever")));
    let mut any = Mock::new(When::new().any(), Then::new());
    assert!(any.matches(&Request::new(Method::DELETE, "/asdf")));
}

#[test]
fn all_matchers_must_match() {
    let mut mock = Mock::new(
        When::new().post().path("/hello").header("x-a", "1"),
        Then::new(),
    );
    let mut headers = mocktail::Headers::new();
    headers.insert("X-A", "1");
    let good = Request::new(Method::POST, "/hello").with_headers(headers);
    assert!(mock.matches(&good));
    assert!(!mock.matches(&Request::new(Method::POST, "/hello")));
    assert!(!mock.matches(&Request::new(Method::GET, "/hello")));
}

#[test]
fn matcher_order_does_not_matter() {
    let a = Mock::new(
        When::new().post().path("/hello").header("a", "b").text("x"),
        Then::new().text("y"),
    );
    let b = Mock::new(
        When::new().text("x").header("a", "b").path("/hello").post(),
        Then::new().text("y"),
    );
    assert_eq!(a, b);
    assert_ne!(a.id(), b.id());
    let names: Vec<&str> = a.matchers.iter().map(|m| m.name()).collect();
    assert_eq!(names, vec!["body", "header", "method", "path"]);
}

#[test]
fn repeated_matchers_are_kept_once() {
    let a = Mock::new(When::new().get().get().path("/a").path("/a"), Then::new());
    let b = Mock::new(When::new().path("/a").get(), Then::new());
    assert_eq!(a.matchers.len(), 2);
    assert_eq!(a, b);
}

#[test]
fn mocks_differ_by_response_priority_and_limit() {
    let base = || Mock::new(When::new().get(), Then::new().text("a"));
    assert_eq!(base(), base());
    assert_ne!(base(), Mock::new(When::new().get(), Then::new().text("b")));
    assert_ne!(base(), base().with_priority(1));
    assert_ne!(base(), base().with_limit(3));
    assert_ne!(base(), Mock::new(When::new().post(), Then::new().text("a")));
    let mut counted = base();
    counted.matches(&Request::new(Method::GET, "/"));
    assert_ne!(base(), counted);
}

#[test]
fn clone_keeps_the_identifier() {
    let mock = Mock::new(
        When::new().get(),
        Then::new().bytes_stream(vec![b"a".to_vec(), b"b".to_vec()]),
    )
    .with_priority(3);
    let copy = mock.clone();
    assert_eq!(copy, mock);
    assert_eq!(copy.id(), mock.id());
    assert_eq!(copy.priority(), 3);
    assert_eq!(copy.response().body().chunks(), vec![b"a".to_vec(), b"b".to_vec()]);
}

#[test]
fn identifiers_are_version_7() {
    let a = Mock::new(When::new(), Then::new());
    let b = Mock::new(When::new(), Then::new());
    assert_ne!(a.id(), b.id());
    assert_eq!((a.id() >> 76) & 0xf, 7);
}

#[test]
fn then_builds_the_response() {
    let then = Then::new()
        .status(StatusCode::from_u16(503).unwrap())
        .message("down")
        .bytes(b"x".to_vec());
    let response = then.into_inner();
    assert_eq!(response.status().as_u16(), 503);
    assert_eq!(response.message(), Some("down"));
    assert_eq!(response.body(), &Body::bytes(b"x".to_vec()));
    assert!(response.is_error());
    assert!(!response.is_ok());
}

#[test]
fn then_status_helpers() {
    assert_eq!(Then::new().ok().into_inner().status().as_u16(), 200);
    assert_eq!(Then::new().bad_request().into_inner().status().as_u16(), 400);
    assert_eq!(Then::new().unauthorized().into_inner().status().as_u16(), 401);
    assert_eq!(Then::new().forbidden().into_inner().status().as_u16(), 403);
    assert_eq!(Then::new().not_found().into_inner().status().as_u16(), 404);
    assert_eq!(Then::new().unsupported_media_type().into_inner().status().as_u16(), 415);
    assert_eq!(Then::new().unprocessable_content().into_inner().status().as_u16(), 422);
    assert_eq!(Then::new().internal_server_error().into_inner().status().as_u16(), 500);
    assert_eq!(Then::new().not_implemented().into_inner().status().as_u16(), 501);
    assert_eq!(Then::new().bad_gateway().into_inner().status().as_u16(), 502);
    assert_eq!(Then::new().service_unavailable().into_inner().status().as_u16(), 503);
    assert_eq!(Then::new().gateway_timeout().into_inner().status().as_u16(), 504);
    let error = Then::new().error(StatusCode::not_found(), "gone").into_inner();
    assert_eq!(error.status().as_u16(), 404);
    assert_eq!(error.message(), Some("gone"));
}

#[test]
fn then_json_sets_the_content_type() {
    let response = Then::new().json(b"{}".to_vec()).into_inner();
    assert_eq!(
        response.headers().get("content-type").map(|v| v.as_str()),
        Some("application/json")
    );
    assert_eq!(response.body().as_bytes(), b"{}".to_vec());
    let lines = Then::new()
        .json_lines_stream(&vec![b"1".to_vec(), b"2".to_vec()])
        .into_inner();
    assert_eq!(
        lines.headers().get("Content-Type").map(|v| v.as_str()),
        Some("application/x-ndjson")
    );
    assert_eq!(lines.body().chunks(), vec![b"1\n".to_vec(), b"2\n".to_vec()]);
}

#[test]
fn then_body_helpers() {
    assert!(Then::new().text("x").empty().into_inner().body().is_empty());
    assert_eq!(Then::new().text("hi").into_inner().body().as_bytes(), b"hi".to_vec());
    let stream = Then::new()
        .text_stream(&vec!["a".to_string(), "bc".to_string()])
        .into_inner();
    assert_eq!(stream.body().chunks(), vec![b"a".to_vec(), b"bc".to_vec()]);
    let pb = Then::new().pb(b"\x0a\x03Dan").into_inner();
    assert_eq!(pb.body().as_bytes(), b"\x00\x00\x00\x00\x05\x0a\x03Dan".to_vec());
    let pbs = Then::new().pb_stream(&vec![b"a".to_vec(), b"".to_vec()]).into_inner();
    assert_eq!(
        pbs.body().chunks(),
        vec![b"\x00\x00\x00\x00\x01a".to_vec(), b"\x00\x00\x00\x00\x00".to_vec()]
    );
    let mut headers = mocktail::Headers::new();
    headers.insert("a", "b");
    let with_headers = Then::new().headers(headers.clone()).body(Body::empty()).into_inner();
    assert_eq!(with_headers.headers(), &headers);
}
