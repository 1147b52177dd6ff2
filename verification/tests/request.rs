use mocktail::mock_path::MockPath;
use mocktail::{Headers, Method, Request};

#[test]
fn methods_read_from_upper_case_names() {
    let names = [
        ("GET", Method::GET),
        ("HEAD", Method::HEAD),
        ("POST", Method::POST),
        ("PUT", Method::PUT),
        ("DELETE", Method::DELETE),
        ("CONNECT", Method::CONNECT),
        ("OPTIONS", Method::OPTIONS),
        ("TRACE", Method::TRACE),
        ("PATCH", Method::PATCH),
    ];
    for (index, (name, method)) in names.iter().enumerate() {
        assert_eq!(Method::from_name(name), Ok(*method));
        assert_eq!(method.as_str(), *name);
        assert_eq!(method.index() as usize, index);
        assert_eq!(name.parse::<Method>(), Ok(*method));
    }
    assert_eq!(Method::default(), Method::GET);
}

#[test]
fn from_name_is_exact() {
    assert_eq!(Method::from_name("get"), Err("Invalid HTTP method get".to_string()));
    assert_eq!(Method::from_name(""), Err("Invalid HTTP method ".to_string()));
    assert_eq!(Method::from_name("GETS"), Err("Invalid HTTP method GETS".to_string()));
}

#[test]
fn parse_takes_any_case() {
    assert_eq!(Method::parse("get"), Ok(Method::GET));
    assert_eq!(Method::parse("Post"), Ok(Method::POST));
    assert_eq!(Method::parse("dElEtE"), Ok(Method::DELETE));
    assert_eq!("options".parse::<Method>(), Ok(Method::OPTIONS));
    assert_eq!(Method::parse("po\u{17f}t"), Ok(Method::POST));
    assert_eq!(Method::parse("fetch"), Err("Invalid HTTP method fetch".to_string()));
    assert_eq!(Method::parse(" get"), Err("Invalid HTTP method  get".to_string()));
}

#[test]
fn new_request_is_bare() {
    let request = Request::new(Method::PUT, "/a/b");
    assert_eq!(request.method, Method::PUT);
    assert_eq!(request.path(), "/a/b");
    assert_eq!(request.query(), None);
    assert!(request.headers.is_empty());
    assert!(request.body.is_empty());
}

#[test]
fn request_builders_replace_one_part() {
    let mut headers = Headers::new();
    headers.insert("a", "b");
    let request = Request::new(Method::POST, "/p")
        .with_headers(headers.clone())
        .with_query("x=1")
        .with_body(b"body".to_vec());
    assert_eq!(request.method, Method::POST);
    assert_eq!(request.path(), "/p");
    assert_eq!(request.query(), Some("x=1"));
    assert_eq!(request.headers, headers);
    assert_eq!(request.body, b"body".to_vec());
    let parts = Request::from_parts(Method::GET, "/q", Some("y=2"), headers.clone());
    assert_eq!(parts.path(), "/q");
    assert_eq!(parts.query(), Some("y=2"));
    assert_eq!(parts.headers, headers);
    assert!(parts.body.is_empty());
    assert_eq!(Request::from_parts(Method::GET, "/q", None, Headers::new()).query(), None);
}

#[test]
fn query_pairs_are_percent_decoded() {
    let request = Request::new(Method::GET, "/").with_query("%23first=%25try%25&name=J%C3%BCrgen");
    assert_eq!(
        request.query_pairs(),
        vec![
            ("#first".to_string(), "%try%".to_string()),
            ("name".to_string(), "J\u{fc}rgen".to_string()),
        ]
    );
}

#[test]
fn mock_path_roots_the_path() {
    assert_eq!(MockPath::new(Method::GET, "hello").path(), "/hello");
    assert_eq!(MockPath::new(Method::GET, "/hello").path(), "/hello");
    assert_eq!(MockPath::new(Method::GET, "").path(), "/");
    assert_eq!(MockPath::new(Method::GET, "//x").path(), "//x");
    assert_eq!(MockPath::new(Method::PUT, "a").method(), &Method::PUT);
    assert_eq!(MockPath::new(Method::PUT, "a").query(), None);
}

#[test]
fn mock_path_shorthands_take_the_path_as_it_is() {
    let post = MockPath::post("hello");
    assert_eq!(post.method(), &Method::POST);
    assert_eq!(post.path(), "hello");
    let get = MockPath::get("/x").with_query("a=b");
    assert_eq!(get.method(), &Method::GET);
    assert_eq!(get.path(), "/x");
    assert_eq!(get.query(), Some("a=b"));
    assert_eq!(MockPath::default().path(), "");
    assert_eq!(MockPath::default().method(), &Method::GET);
}

#[test]
fn mock_path_of_a_request() {
    let request = Request::new(Method::POST, "api").with_query("k=v");
    let key = MockPath::from_request(&request);
    assert_eq!(key, MockPath::new(Method::POST, "/api").with_query("k=v"));
    assert_ne!(key, MockPath::new(Method::POST, "/api"));
    assert_ne!(key, MockPath::new(Method::GET, "/api").with_query("k=v"));
    assert_eq!(
        MockPath::from_request(&Request::new(Method::GET, "/a")),
        MockPath::get("/a")
    );
}
