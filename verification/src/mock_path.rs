//! The key by which a request is routed: its method, path and query.
use crate::request::{Method, Request};
use crate::text::{str_eq, str_starts_with};
use vstd::prelude::*;
use vstd::string::StringExecFns;

verus! {

/// What a mock path is, as plain values.
pub struct MockPathView {
    pub method: Method,
    pub path: Seq<char>,
    pub query: Option<Seq<char>>,
}

/// A path with a leading slash: the path itself if it has one, else the
/// path behind a slash.
pub open spec fn rooted(path: Seq<char>) -> Seq<char> {
    if path.len() > 0 && path[0] == '/' {
        path
    } else {
        seq!['/'] + path
    }
}

/// A mock path for request matching.
#[derive(Debug)]
pub struct MockPath {
    method: Method,
    path: String,
    query: Option<String>,
}

impl View for MockPath {
    type V = MockPathView;

    closed spec fn view(&self) -> MockPathView {
        MockPathView {
            method: self.method,
            path: self.path@,
            query: match self.query {
                Some(q) => Some(q@),
                None => None,
            },
        }
    }
}

impl MockPath {
    /// Creates a mock path without query. A path without a leading slash
    /// gets one.
    pub fn new(method: Method, path: &str) -> (r: MockPath)
        ensures
            r@ == (MockPathView { method, path: rooted(path@), query: None }),
    {
        proof {
            reveal_strlit("/");
            assert("/"@ =~= seq!['/']);
            if path@.len() > 0 && path@[0] == '/' {
                assert(path@.subrange(0, 1) =~= "/"@);
            }
            if "/"@.is_prefix_of(path@) {
                assert(path@.subrange(0, 1)[0] == '/');
            }
        }
        let path = if str_starts_with(path, "/") {
            String::from_str(path)
        } else {
            String::from_str("/").concat(path)
        };
        MockPath { method, path, query: None }
    }

    /// Creates the mock path of a request.
    pub fn from_request(request: &Request) -> (r: MockPath)
        ensures
            r@ == (MockPathView {
                method: request@.method,
                path: rooted(request@.path),
                query: request@.query,
            }),
    {
        let key = MockPath::new(request.method, request.path());
        match request.query() {
            Some(q) => key.with_query(q),
            None => key,
        }
    }

    /// Creates a mock path for POST. The path is taken as it is.
    pub fn post(path: &str) -> (r: MockPath)
        ensures
            r@ == (MockPathView { method: Method::POST, path: path@, query: None }),
    {
        MockPath { method: Method::POST, path: String::from_str(path), query: None }
    }

    /// Creates a mock path for GET. The path is taken as it is.
    pub fn get(path: &str) -> (r: MockPath)
        ensures
            r@ == (MockPathView { method: Method::GET, path: path@, query: None }),
    {
        MockPath { method: Method::GET, path: String::from_str(path), query: None }
    }

    /// Sets the query.
    pub fn with_query(self, query: &str) -> (r: MockPath)
        ensures
            r@ == (MockPathView { query: Some(query@), ..self@ }),
    {
        let mut r = self;
        r.query = Some(String::from_str(query));
        r
    }

    /// Returns the method.
    pub fn method(&self) -> (r: &Method)
        ensures
            *r == self@.method,
    {
        &self.method
    }

    /// Returns the path.
    pub fn path(&self) -> (r: &str)
        ensures
            r@ == self@.path,
    {
        self.path.as_str()
    }

    /// Returns the query, if there is one.
    pub fn query(&self) -> (r: Option<&str>)
        ensures
            r is Some <==> self@.query is Some,
            r is Some ==> r->Some_0@ == self@.query->Some_0,
    {
        match &self.query {
            Some(q) => Some(q.as_str()),
            None => None,
        }
    }

    /// Returns true if both have the same method, path and query.
    pub fn same_as(&self, other: &MockPath) -> (r: bool)
        ensures
            r == (self@ == other@),
    {
        let same_query = match (&self.query, &other.query) {
            (Some(a), Some(b)) => str_eq(a.as_str(), b.as_str()),
            (None, None) => true,
            _ => false,
        };
        self.method == other.method && same_query && str_eq(
            self.path.as_str(),
            other.path.as_str(),
        )
    }
}

impl Default for MockPath {
    fn default() -> (r: MockPath)
        ensures
            r@ == (MockPathView { method: Method::GET, path: Seq::empty(), query: None }),
    {
        MockPath { method: Method::GET, path: String::new(), query: None }
    }
}

impl PartialEq for MockPath {
    fn eq(&self, other: &MockPath) -> (r: bool) {
        self.same_as(other)
    }
}

impl vstd::std_specs::cmp::PartialEqSpecImpl for MockPath {
    open spec fn obeys_eq_spec() -> bool {
        true
    }

    open spec fn eq_spec(&self, other: &MockPath) -> bool {
        self@ == other@
    }
}

/// A path that has been given a leading slash keeps it: giving it one
/// again changes nothing.
pub proof fn lemma_rooted_idempotent(path: Seq<char>)
    ensures
        rooted(rooted(path)) == rooted(path),
        rooted(path).len() > 0,
        rooted(path)[0] == '/',
{
}

} // verus!
