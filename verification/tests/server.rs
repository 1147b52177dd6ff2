use mocktail::server::{
    candidate_port, Lifecycle, ServerKind, DRAIN_TIMEOUT_SECS, PORT_RANGE_END, PORT_RANGE_START,
    READY_ATTEMPTS, READY_WAIT_MILLIS,
};
use mocktail::{Error, Method, MockServer, MockSet, Request, Then, When};

#[test]
fn candidate_ports_lie_in_the_range() {
    let mut seen = std::collections::BTreeSet::new();
    for _ in 0..2000 {
        let port = candidate_port();
        assert!((40000..60000).contains(&port));
        assert!(PORT_RANGE_START <= port && port < PORT_RANGE_END);
        seen.insert(port);
    }
    assert!(seen.len() > 1);
}

#[test]
fn new_server_is_created_as_http() {
    let server = MockServer::new("hello");
    assert_eq!(server.name(), "hello");
    assert_eq!(server.kind(), ServerKind::Http);
    assert_eq!(server.state(), Lifecycle::Created);
    assert_eq!(server.port(), None);
    assert_eq!(server.addr(), None);
    assert_eq!(server.base_url(), None);
    assert_eq!(server.url("/hello"), None);
    assert!(!server.is_running());
    assert_eq!(MockServer::new("g").grpc().kind(), ServerKind::Grpc);
}

#[test]
fn server_goes_through_its_life() {
    let mut server = MockServer::new("life");
    assert!(!server.started(40001));
    assert!(!server.shutdown());
    assert!(!server.stopped());
    assert!(server.begin_start().is_ok());
    assert_eq!(server.state(), Lifecycle::Starting);
    assert!(!server.is_running());
    assert!(server.started(40001));
    assert_eq!(server.state(), Lifecycle::Running);
    assert!(server.is_running());
    assert_eq!(server.port(), Some(40001));
    assert!(!server.started(40002));
    assert_eq!(server.port(), Some(40001));
    assert!(server.shutdown());
    assert_eq!(server.state(), Lifecycle::ShuttingDown);
    assert!(!server.is_running());
    assert!(!server.shutdown());
    assert!(server.stopped());
    assert_eq!(server.state(), Lifecycle::Stopped);
    assert_eq!(server.port(), None);
    assert!(!server.stopped());
}

#[test]
fn server_starts_once() {
    let mut server = MockServer::new("once");
    assert!(server.begin_start().is_ok());
    match server.begin_start() {
        Err(Error::ServerError(message)) => assert_eq!(message, "already running"),
        other => panic!("{other:?}"),
    }
    assert_eq!(server.state(), Lifecycle::Starting);
    server.started(41000);
    assert!(matches!(server.begin_start(), Err(Error::ServerError(_))));
    assert_eq!(server.state(), Lifecycle::Running);
}

#[test]
fn failed_start_can_be_tried_again() {
    let mut server = MockServer::new("retry");
    assert!(!server.start_failed());
    assert!(server.begin_start().is_ok());
    assert!(server.start_failed());
    assert_eq!(server.state(), Lifecycle::Created);
    assert!(server.begin_start().is_ok());
}

#[test]
fn running_server_has_urls() {
    let mut server = MockServer::new("urls");
    server.begin_start().unwrap();
    server.started(45678);
    assert_eq!(server.addr(), Some("0.0.0.0:45678".to_string()));
    assert_eq!(server.base_url(), Some("http://0.0.0.0:45678".to_string()));
    assert_eq!(server.url("/hello"), Some("http://0.0.0.0:45678/hello".to_string()));
    assert_eq!(server.url("hello"), Some("http://0.0.0.0:45678/hello".to_string()));
    assert_eq!(server.url("/a/../b?x=1"), Some("http://0.0.0.0:45678/b?x=1".to_string()));
    assert_eq!(server.url(""), Some("http://0.0.0.0:45678/".to_string()));
    assert_eq!(server.url("http://["), None);
}

#[test]
fn ports_are_written_in_decimal() {
    for (port, text) in [(1u16, "1"), (9, "9"), (10, "10"), (40000, "40000"), (65535, "65535")] {
        let mut server = MockServer::new("p");
        server.begin_start().unwrap();
        server.started(port);
        assert_eq!(server.addr(), Some(format!("0.0.0.0:{text}")));
    }
}

#[test]
fn server_holds_its_mocks() {
    let mut mocks = MockSet::new();
    mocks.mock(When::new().path("/a"), Then::new().text("a"));
    let mut server = MockServer::new("m").with_mocks(mocks);
    server.mock(When::new().path("/b"), Then::new().text("b"));
    server.mock_with_priority(1, When::new().path("/c"), Then::new().text("c"));
    assert_eq!(server.mocks().len(), 3);
    let first = server.mocks().find(&Request::new(Method::GET, "/c")).unwrap().priority();
    assert_eq!(first, 1);
    server.mocks().clear();
    assert!(server.mocks().is_empty());
    server.mock(When::new().any(), Then::new());
    assert_eq!(server.into_mocks().len(), 1);
}

#[test]
fn protocols_and_waits() {
    assert!(ServerKind::Grpc.http2_only());
    assert!(!ServerKind::Http.http2_only());
    assert_eq!(ServerKind::Http.as_str(), "http");
    assert_eq!(ServerKind::Grpc.as_str(), "grpc");
    assert_eq!(DRAIN_TIMEOUT_SECS, 10);
    assert_eq!(READY_ATTEMPTS, 30);
    assert_eq!(READY_WAIT_MILLIS, 10);
}

#[test]
fn mocks_can_be_read_without_changing_them() {
    let mut server = MockServer::new("r");
    server.mock(When::new().path("/a"), Then::new().bytes_stream(vec![b"1".to_vec(), b"2".to_vec()]));
    assert_eq!(server.mock_set().len(), 1);
    assert_eq!(
        server.mock_set().iter()[0].response().body().chunks(),
        vec![b"1".to_vec(), b"2".to_vec()]
    );
}
