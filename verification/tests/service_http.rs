use mocktail::service::http::StreamEnd;
use mocktail::service::{Exchange, Frame, HttpMockService};
use mocktail::{Headers, Method, MockSet, Request, StatusCode, Then, When};

fn json_object(key: &str, value: &str) -> Vec<u8> {
    let mut map = serde_json::Map::new();
    map.insert(key.to_string(), serde_json::Value::String(value.to_string()));
    serde_json::to_vec(&serde_json::Value::Object(map)).unwrap()
}

fn data(frame: &Frame) -> Vec<u8> {
    match frame {
        Frame::Data(bytes) => bytes.clone(),
        Frame::Trailers(_) => panic!("trailers where data was expected"),
    }
}

fn hello_service() -> HttpMockService {
    let mut mocks = MockSet::new();
    mocks.mock(
        When::new().post().path("/hello").json(json_object("name", "dan")),
        Then::new().json(json_object("message", "hello dan!")),
    );
    mocks.mock(When::new().get().path("/world"), Then::new().text("hello!"));
    HttpMockService::new(mocks)
}

#[test]
fn unary_json_request_gets_its_response() {
    let mut service = hello_service();
    let request = Request::new(Method::POST, "/hello").with_body(b"{\"name\":\"dan\"}".to_vec());
    let reply = service.respond(&request);
    assert_eq!(reply.status.as_u16(), 200);
    assert_eq!(reply.body, b"{\"message\":\"hello dan!\"}".to_vec());
    assert_eq!(
        reply.headers.get("content-type").map(|v| v.as_str()),
        Some("application/json")
    );
    let world = service.respond(&Request::new(Method::GET, "/world"));
    assert_eq!(world.status.as_u16(), 200);
    assert_eq!(world.body, b"hello!".to_vec());
}

#[test]
fn unary_request_without_a_mock_gets_404() {
    let mut service = hello_service();
    let request = Request::new(Method::POST, "/hello").with_body(json_object("name", "carl"));
    let reply = service.respond(&request);
    assert_eq!(reply.status.as_u16(), 404);
    assert_eq!(reply.body, b"mock not found".to_vec());
    assert!(reply.headers.is_empty());
    let wrong_method = Request::new(Method::GET, "/hello").with_body(json_object("name", "dan"));
    assert_eq!(service.respond(&wrong_method).status.as_u16(), 404);
    let not_found = HttpMockService::not_found();
    assert_eq!(not_found.status, StatusCode::not_found());
}

#[test]
fn error_response_sends_its_message() {
    let mut mocks = MockSet::new();
    mocks.mock(
        When::new().path("/boom"),
        Then::new().internal_server_error().message("unexpected error").text("ignored"),
    );
    mocks.mock(
        When::new().path("/quiet"),
        Then::new().status(StatusCode::from_u16(503).unwrap()).text("body stays"),
    );
    mocks.mock(When::new().path("/fine"), Then::new().message("note").text("ok body"));
    let mut service = HttpMockService::new(mocks);
    let boom = service.respond(&Request::new(Method::GET, "/boom"));
    assert_eq!(boom.status.as_u16(), 500);
    assert_eq!(boom.body, b"unexpected error".to_vec());
    let quiet = service.respond(&Request::new(Method::GET, "/quiet"));
    assert_eq!(quiet.status.as_u16(), 503);
    assert_eq!(quiet.body, b"body stays".to_vec());
    let fine = service.respond(&Request::new(Method::GET, "/fine"));
    assert_eq!(fine.status.as_u16(), 200);
    assert_eq!(fine.body, b"ok body".to_vec());
}

#[test]
fn http_rejects_methods_that_are_not_allowed() {
    let service = HttpMockService::new(MockSet::new());
    assert_eq!(
        service.allowed,
        vec![Method::GET, Method::POST, Method::PUT, Method::HEAD, Method::DELETE]
    );
    for method in [Method::GET, Method::POST, Method::PUT, Method::HEAD, Method::DELETE] {
        assert!(service.allows(Some(method)));
        assert!(service.screen(Some(method)).is_none());
    }
    for method in [
        Some(Method::PATCH),
        Some(Method::OPTIONS),
        Some(Method::TRACE),
        Some(Method::CONNECT),
        None,
    ] {
        assert!(!service.allows(method));
        let reply = service.screen(method).unwrap();
        assert_eq!(reply.status.as_u16(), 405);
        assert_eq!(
            reply.headers.get("allow").map(|v| v.as_str()),
            Some("GET, POST, PUT, HEAD, DELETE")
        );
        assert!(reply.body.is_empty());
    }
}

#[test]
fn streamed_request_matches_after_each_chunk() {
    let mut mocks = MockSet::new();
    mocks.mock(
        When::new().post().path("/stream").text("msg1"),
        Then::new().text("reply1"),
    );
    mocks.mock(
        When::new().post().path("/stream").text("msg2"),
        Then::new().bytes_stream(vec![b"reply".to_vec(), b"2".to_vec()]),
    );
    let mut service = HttpMockService::new(mocks);
    let mut exchange = Exchange::start(Request::new(Method::POST, "/stream"));
    assert!(service.on_chunk(&mut exchange, b"ms").is_empty());
    assert_eq!(exchange.buf, b"ms".to_vec());
    assert!(!exchange.matched);
    let frames = service.on_chunk(&mut exchange, b"g1");
    assert_eq!(frames.len(), 2);
    assert_eq!(data(&frames[0]), b"reply1".to_vec());
    assert!(matches!(&frames[1], Frame::Trailers(h) if h.is_empty()));
    assert!(exchange.matched);
    assert!(exchange.buf.is_empty());
    assert_eq!(exchange.request.body, b"msg1".to_vec());
    let frames = service.on_chunk(&mut exchange, b"msg2");
    assert_eq!(frames.len(), 3);
    assert_eq!(data(&frames[0]), b"reply".to_vec());
    assert_eq!(data(&frames[1]), b"2".to_vec());
    assert!(matches!(&frames[2], Frame::Trailers(_)));
    assert!(HttpMockService::on_end(&exchange).is_empty());
    let counts: Vec<usize> = service.mocks.iter().iter().map(|m| m.match_count()).collect();
    assert_eq!(counts, vec![1, 1]);
}

#[test]
fn first_chunk_is_tried_like_every_other() {
    let mut mocks = MockSet::new();
    mocks.mock(When::new().text("a"), Then::new().text("yes"));
    let mut service = HttpMockService::new(mocks);
    let mut exchange = Exchange::start(Request::new(Method::POST, "/"));
    assert!(exchange.buf.is_empty());
    assert!(!exchange.matched);
    let frames = service.on_chunk(&mut exchange, b"a");
    assert_eq!(data(&frames[0]), b"yes".to_vec());
    assert!(exchange.matched);
}

#[test]
fn two_chunks_get_two_answers_in_order() {
    let mut mocks = MockSet::new();
    mocks.mock(When::new().post().path("/hello").text("dan"), Then::new().text("hello dan!"));
    mocks.mock(
        When::new().post().path("/hello").text("mateus"),
        Then::new().text("hello mateus!"),
    );
    let mut service = HttpMockService::new(mocks);
    let mut exchange = Exchange::start(Request::new(Method::POST, "/hello"));
    let first = service.on_chunk(&mut exchange, b"dan");
    let second = service.on_chunk(&mut exchange, b"mateus");
    let sent: Vec<Vec<u8>> = first
        .iter()
        .chain(second.iter())
        .filter_map(|f| match f {
            Frame::Data(bytes) => Some(bytes.clone()),
            Frame::Trailers(_) => None,
        })
        .collect();
    assert_eq!(sent, vec![b"hello dan!".to_vec(), b"hello mateus!".to_vec()]);
    assert!(HttpMockService::on_end(&exchange).is_empty());
    assert!(matches!(HttpMockService::finish(&exchange, true), StreamEnd::Done));
}

#[test]
fn stream_without_a_match_ends_with_the_text() {
    let mut service = hello_service();
    let mut exchange = Exchange::start(Request::new(Method::POST, "/hello"));
    assert!(service.on_chunk(&mut exchange, b"{\"name\":").is_empty());
    assert!(service.on_chunk(&mut exchange, b"\"carl\"}").is_empty());
    assert_eq!(exchange.buf, b"{\"name\":\"carl\"}".to_vec());
    let frames = HttpMockService::on_end(&exchange);
    assert_eq!(frames.len(), 1);
    assert_eq!(data(&frames[0]), b"mock not found".to_vec());
}

#[test]
fn streamed_error_sends_the_message_as_data() {
    let mut headers = Headers::new();
    headers.insert("x-trace", "1");
    let mut mocks = MockSet::new();
    mocks.mock(
        When::new().text("a"),
        Then::new().bad_request().message("bad").headers(headers.clone()).text("body"),
    );
    mocks.mock(When::new().text("b"), Then::new().not_found());
    mocks.mock(When::new().text("c"), Then::new());
    let mut service = HttpMockService::new(mocks);
    let mut exchange = Exchange::start(Request::new(Method::POST, "/"));
    let frames = service.on_chunk(&mut exchange, b"a");
    assert_eq!(frames.len(), 3);
    assert_eq!(data(&frames[0]), b"body".to_vec());
    assert_eq!(data(&frames[1]), b"bad".to_vec());
    assert!(matches!(&frames[2], Frame::Trailers(h) if *h == headers));
    let frames = service.on_chunk(&mut exchange, b"b");
    assert_eq!(frames.len(), 2);
    assert_eq!(data(&frames[0]), Vec::<u8>::new());
    let frames = service.on_chunk(&mut exchange, b"c");
    assert_eq!(frames.len(), 1);
    assert!(matches!(&frames[0], Frame::Trailers(_)));
}

#[test]
fn rules_can_change_while_serving() {
    let mut service = hello_service();
    service.mocks.clear();
    service.mocks.mock(
        When::new().text("give me an error"),
        Then::new().status(StatusCode::from_u16(503).unwrap()),
    );
    let reply = service.respond(
        &Request::new(Method::GET, "/path").with_body(b"give me an error".to_vec()),
    );
    assert_eq!(reply.status.as_u16(), 503);
    assert_eq!(service.respond(&Request::new(Method::GET, "/world")).status.as_u16(), 404);
}

#[test]
fn allowed_methods_can_be_set() {
    let service = HttpMockService::new(MockSet::new()).with_allowed(vec![Method::PATCH]);
    assert!(service.allows(Some(Method::PATCH)));
    assert!(!service.allows(Some(Method::GET)));
    assert_eq!(service.allow_header(), "PATCH");
    let reply = service.screen(Some(Method::GET)).unwrap();
    assert_eq!(reply.headers.get("Allow").map(|v| v.as_str()), Some("PATCH"));
    let none = HttpMockService::new(MockSet::new()).with_allowed(Vec::new());
    assert_eq!(none.allow_header(), "");
    assert!(none.screen(Some(Method::GET)).is_some());
    let two = HttpMockService::new(MockSet::new())
        .with_allowed(vec![Method::OPTIONS, Method::TRACE]);
    assert_eq!(two.allow_header(), "OPTIONS, TRACE");
}

#[test]
fn stream_end_depends_on_what_was_sent() {
    let mut service = hello_service();
    let mut exchange = Exchange::start(Request::new(Method::GET, "/world"));
    match HttpMockService::finish(&exchange, false) {
        StreamEnd::Reply(reply) => {
            assert_eq!(reply.status.as_u16(), 404);
            assert_eq!(reply.body, b"mock not found".to_vec());
        }
        other => panic!("{other:?}"),
    }
    match HttpMockService::finish(&exchange, true) {
        StreamEnd::Frames(frames) => {
            assert_eq!(frames.len(), 1);
            assert_eq!(data(&frames[0]), b"mock not found".to_vec());
        }
        other => panic!("{other:?}"),
    }
    assert!(!service.on_chunk(&mut exchange, b"").is_empty());
    assert!(matches!(HttpMockService::finish(&exchange, true), StreamEnd::Done));
    assert!(matches!(HttpMockService::finish(&exchange, false), StreamEnd::Done));
}
