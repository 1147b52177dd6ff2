use mocktail::service::grpc::{has_content_type, mock_not_found_trailer};
use mocktail::service::{Exchange, Frame, GrpcMockService};
use mocktail::wire::{decode_frame, encode_frame};
use mocktail::{Headers, Method, MockSet, Request, Then, When};

fn grpc_headers() -> Headers {
    let mut headers = Headers::new();
    headers.insert("content-type", "application/grpc");
    headers
}

fn trailers(frame: &Frame) -> Vec<(String, String)> {
    match frame {
        Frame::Trailers(headers) => headers
            .iter()
            .iter()
            .map(|(n, v)| (n.as_str().to_string(), v.as_str().to_string()))
            .collect(),
        Frame::Data(_) => panic!("data where trailers were expected"),
    }
}

fn own(items: &[(&str, &str)]) -> Vec<(String, String)> {
    items.iter().map(|(n, v)| (n.to_string(), v.to_string())).collect()
}

#[test]
fn grpc_rejects_other_methods_with_405() {
    for method in [Some(Method::GET), Some(Method::PUT), Some(Method::PATCH), None] {
        let reply = GrpcMockService::screen(method, &grpc_headers()).unwrap();
        assert_eq!(reply.status.as_u16(), 405);
        assert_eq!(reply.headers.get("allow").map(|v| v.as_str()), Some("POST"));
        assert_eq!(reply.headers.len(), 1);
        assert!(reply.body.is_empty());
    }
}

#[test]
fn grpc_rejects_other_content_with_415() {
    let mut json = Headers::new();
    json.insert("content-type", "application/json");
    let mut late = Headers::new();
    late.insert("content-type", "text/plain");
    late.insert("content-type", "application/grpc");
    for headers in [Headers::new(), json, late] {
        let reply = GrpcMockService::screen(Some(Method::POST), &headers).unwrap();
        assert_eq!(reply.status.as_u16(), 415);
        assert_eq!(
            reply.headers.get("accept-post").map(|v| v.as_str()),
            Some("application/grpc")
        );
        assert_eq!(reply.headers.len(), 1);
        assert!(reply.body.is_empty());
    }
}

#[test]
fn grpc_lets_grpc_posts_pass() {
    assert!(GrpcMockService::screen(Some(Method::POST), &grpc_headers()).is_none());
    let mut proto = Headers::new();
    proto.insert("Content-Type", "application/grpc+proto");
    assert!(GrpcMockService::screen(Some(Method::POST), &proto).is_none());
    assert!(GrpcMockService::accepts_content(&proto));
    assert!(!GrpcMockService::accepts_content(&Headers::new()));
    assert!(has_content_type(&grpc_headers(), "application/grpc"));
    assert!(!has_content_type(&proto, "application/grpc"));
    assert!(!has_content_type(&Headers::new(), "application/grpc"));
}

#[test]
fn unary_call_with_another_body_is_not_found() {
    let x = b"\x0a\x03dan";
    let z = b"\x0a\x0edoes_not_exist";
    let mut mocks = MockSet::new();
    mocks.mock(
        When::new().path("/example.Hello/HelloUnary").pb(x),
        Then::new().pb(b"\x0a\x0ahello dan!"),
    );
    let mut service = GrpcMockService::new(mocks);
    let head = Request::new(Method::POST, "/example.Hello/HelloUnary").with_headers(grpc_headers());
    let mut exchange = Exchange::start(head);
    assert!(service.on_chunk(&mut exchange, &encode_frame(z)).is_empty());
    let frames = GrpcMockService::on_end(&exchange);
    assert_eq!(frames.len(), 1);
    assert_eq!(
        trailers(&frames[0]),
        own(&[("grpc-status", "5"), ("grpc-message", "mock not found")])
    );
    assert_eq!(mock_not_found_trailer().get("grpc-status").map(|v| v.as_str()), Some("5"));
}

#[test]
fn unary_call_gets_data_then_trailers() {
    let mut mocks = MockSet::new();
    mocks.mock(
        When::new().path("/example.Hello/HelloUnary").pb(b"\x0a\x03dan"),
        Then::new().pb(b"\x0a\x0ahello dan!"),
    );
    let mut service = GrpcMockService::new(mocks);
    let head = Request::new(Method::POST, "/example.Hello/HelloUnary").with_headers(grpc_headers());
    let mut exchange = Exchange::start(head);
    let frames = service.on_chunk(&mut exchange, &encode_frame(b"\x0a\x03dan"));
    assert_eq!(frames.len(), 2);
    match &frames[0] {
        Frame::Data(bytes) => {
            assert_eq!(decode_frame(bytes), Some(b"\x0a\x0ahello dan!".to_vec()))
        }
        Frame::Trailers(_) => panic!("data expected"),
    }
    assert_eq!(trailers(&frames[1]), own(&[("grpc-status", "0")]));
    assert!(GrpcMockService::on_end(&exchange).is_empty());
}

#[test]
fn streaming_mock_delivers_its_messages_in_order() {
    let mut mocks = MockSet::new();
    mocks.mock(
        When::new().path("/example.Hello/HelloServerStreaming").pb(b"Dan, Gaurav"),
        Then::new().pb_stream(&vec![b"Hello Dan!".to_vec(), b"Hello Gaurav!".to_vec()]),
    );
    let mut service = GrpcMockService::new(mocks);
    let head = Request::new(Method::POST, "/example.Hello/HelloServerStreaming")
        .with_headers(grpc_headers());
    let mut exchange = Exchange::start(head);
    let frames = service.on_chunk(&mut exchange, &encode_frame(b"Dan, Gaurav"));
    assert_eq!(frames.len(), 3);
    let messages: Vec<Vec<u8>> = frames[..2]
        .iter()
        .map(|f| match f {
            Frame::Data(bytes) => decode_frame(bytes).unwrap(),
            Frame::Trailers(_) => panic!("data expected"),
        })
        .collect();
    assert_eq!(messages, vec![b"Hello Dan!".to_vec(), b"Hello Gaurav!".to_vec()]);
    assert_eq!(trailers(&frames[2]), own(&[("grpc-status", "0")]));
}

#[test]
fn client_stream_matches_once_all_messages_are_in() {
    let mut mocks = MockSet::new();
    mocks.mock(
        When::new().pb_stream(&vec![b"Dan".to_vec(), b"Gaurav".to_vec()]),
        Then::new().pb(b"Hello Dan, Gaurav!"),
    );
    let mut service = GrpcMockService::new(mocks);
    let mut exchange = Exchange::start(Request::new(Method::POST, "/c"));
    assert!(service.on_chunk(&mut exchange, &encode_frame(b"Dan")).is_empty());
    let frames = service.on_chunk(&mut exchange, &encode_frame(b"Gaurav"));
    assert_eq!(frames.len(), 2);
}

#[test]
fn error_response_goes_into_the_trailers() {
    let mut extra = Headers::new();
    extra.insert("x-request-id", "7");
    extra.insert("grpc-status", "99");
    let mut mocks = MockSet::new();
    mocks.mock(
        When::new().pb(b"unexpected_error"),
        Then::new().internal_server_error().message("unexpected error").headers(extra),
    );
    mocks.mock(When::new().pb(b"silent"), Then::new().not_found());
    let mut service = GrpcMockService::new(mocks);
    let mut exchange = Exchange::start(Request::new(Method::POST, "/e"));
    let frames = service.on_chunk(&mut exchange, &encode_frame(b"unexpected_error"));
    assert_eq!(frames.len(), 1);
    assert_eq!(
        trailers(&frames[0]),
        own(&[
            ("x-request-id", "7"),
            ("grpc-status", "13"),
            ("grpc-message", "unexpected error"),
        ])
    );
    let frames = service.on_chunk(&mut exchange, &encode_frame(b"silent"));
    assert_eq!(frames.len(), 1);
    assert_eq!(trailers(&frames[0]), own(&[("grpc-status", "5")]));
}

#[test]
fn trailers_follow_the_status_table() {
    let response = Then::new().service_unavailable().into_inner();
    let t = GrpcMockService::trailers_for(&response);
    assert_eq!(t.get("grpc-status").map(|v| v.as_str()), Some("14"));
    assert!(t.get("grpc-message").is_none());
    let frames = GrpcMockService::frames_for(&Then::new().into_inner());
    assert_eq!(frames.len(), 1);
    assert!(matches!(&frames[0], Frame::Trailers(_)));
}
