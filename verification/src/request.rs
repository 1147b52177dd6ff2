//! Request
use crate::headers::{HeaderPair, Headers};
use crate::text::{str_eq, to_uppercase, upper_text};
use vstd::prelude::*;
use vstd::string::StringExecFns;

verus! {

/// A representation of an HTTP method.
#[allow(clippy::upper_case_acronyms)]
#[derive(Debug, Clone, Copy, PartialEq, Eq, Structural, Hash)]
pub enum Method {
    GET,
    HEAD,
    POST,
    PUT,
    DELETE,
    CONNECT,
    OPTIONS,
    TRACE,
    PATCH,
}

/// The method that an upper-case name stands for, if any.
pub open spec fn method_of_name(name: Seq<char>) -> Option<Method> {
    if name == "GET"@ {
        Some(Method::GET)
    } else if name == "HEAD"@ {
        Some(Method::HEAD)
    } else if name == "POST"@ {
        Some(Method::POST)
    } else if name == "PUT"@ {
        Some(Method::PUT)
    } else if name == "DELETE"@ {
        Some(Method::DELETE)
    } else if name == "CONNECT"@ {
        Some(Method::CONNECT)
    } else if name == "OPTIONS"@ {
        Some(Method::OPTIONS)
    } else if name == "TRACE"@ {
        Some(Method::TRACE)
    } else if name == "PATCH"@ {
        Some(Method::PATCH)
    } else {
        None
    }
}

impl Method {
    /// The upper-case name of the method.
    pub open spec fn spec_name(&self) -> Seq<char> {
        match self {
            Method::GET => "GET"@,
            Method::HEAD => "HEAD"@,
            Method::POST => "POST"@,
            Method::PUT => "PUT"@,
            Method::DELETE => "DELETE"@,
            Method::CONNECT => "CONNECT"@,
            Method::OPTIONS => "OPTIONS"@,
            Method::TRACE => "TRACE"@,
            Method::PATCH => "PATCH"@,
        }
    }

    /// The position of the method in the order of declaration.
    pub open spec fn spec_index(&self) -> u8 {
        match self {
            Method::GET => 0,
            Method::HEAD => 1,
            Method::POST => 2,
            Method::PUT => 3,
            Method::DELETE => 4,
            Method::CONNECT => 5,
            Method::OPTIONS => 6,
            Method::TRACE => 7,
            Method::PATCH => 8,
        }
    }

    /// Returns the position of the method in the order of declaration.
    pub fn index(&self) -> (r: u8)
        ensures
            r == self.spec_index(),
    {
        match self {
            Method::GET => 0,
            Method::HEAD => 1,
            Method::POST => 2,
            Method::PUT => 3,
            Method::DELETE => 4,
            Method::CONNECT => 5,
            Method::OPTIONS => 6,
            Method::TRACE => 7,
            Method::PATCH => 8,
        }
    }

    /// Returns the upper-case name of the method.
    pub fn as_str(&self) -> (r: &'static str)
        ensures
            r@ == self.spec_name(),
    {
        match self {
            Method::GET => "GET",
            Method::HEAD => "HEAD",
            Method::POST => "POST",
            Method::PUT => "PUT",
            Method::DELETE => "DELETE",
            Method::CONNECT => "CONNECT",
            Method::OPTIONS => "OPTIONS",
            Method::TRACE => "TRACE",
            Method::PATCH => "PATCH",
        }
    }

    /// Reads a method from its upper-case name.
    pub fn from_name(value: &str) -> (r: Result<Method, String>)
        ensures
            match method_of_name(value@) {
                Some(m) => r == Ok::<Method, String>(m),
                None => r is Err && r->Err_0@ == "Invalid HTTP method "@ + value@,
            },
    {
        if str_eq(value, "GET") {
            Ok(Method::GET)
        } else if str_eq(value, "HEAD") {
            Ok(Method::HEAD)
        } else if str_eq(value, "POST") {
            Ok(Method::POST)
        } else if str_eq(value, "PUT") {
            Ok(Method::PUT)
        } else if str_eq(value, "DELETE") {
            Ok(Method::DELETE)
        } else if str_eq(value, "CONNECT") {
            Ok(Method::CONNECT)
        } else if str_eq(value, "OPTIONS") {
            Ok(Method::OPTIONS)
        } else if str_eq(value, "TRACE") {
            Ok(Method::TRACE)
        } else if str_eq(value, "PATCH") {
            Ok(Method::PATCH)
        } else {
            Err(String::from_str("Invalid HTTP method ").concat(value))
        }
    }

    /// Reads a method from its name in any case. The error names the text
    /// that was given.
    pub fn parse(value: &str) -> (r: Result<Method, String>)
        ensures
            match method_of_name(upper_text(value@)) {
                Some(m) => r == Ok::<Method, String>(m),
                None => r is Err && r->Err_0@ == "Invalid HTTP method "@ + value@,
            },
    {
        let upper = to_uppercase(value);
        match Method::from_name(upper.as_str()) {
            Ok(m) => Ok(m),
            Err(_) => Err(String::from_str("Invalid HTTP method ").concat(value)),
        }
    }
}

/// Every method is read back from its own name.
pub proof fn lemma_method_name_round_trip(m: Method)
    ensures
        method_of_name(m.spec_name()) == Some(m),
{
    reveal_strlit("GET");
    reveal_strlit("HEAD");
    reveal_strlit("POST");
    reveal_strlit("PUT");
    reveal_strlit("DELETE");
    reveal_strlit("CONNECT");
    reveal_strlit("OPTIONS");
    reveal_strlit("TRACE");
    reveal_strlit("PATCH");
    match m {
        Method::GET => {},
        Method::HEAD => {
            assert("HEAD"@.len() != "GET"@.len());
        },
        Method::POST => {
            assert("POST"@.len() != "GET"@.len());
            assert("POST"@[0] != "HEAD"@[0]);
        },
        Method::PUT => {
            assert("PUT"@[0] != "GET"@[0]);
            assert("PUT"@.len() != "HEAD"@.len());
            assert("PUT"@.len() != "POST"@.len());
        },
        Method::DELETE => {
            assert("DELETE"@.len() == 6);
        },
        Method::CONNECT => {
            assert("CONNECT"@.len() == 7);
        },
        Method::OPTIONS => {
            assert("OPTIONS"@.len() == 7);
            assert("OPTIONS"@[0] != "CONNECT"@[0]);
        },
        Method::TRACE => {
            assert("TRACE"@.len() == 5);
        },
        Method::PATCH => {
            assert("PATCH"@.len() == 5);
            assert("PATCH"@[0] != "TRACE"@[0]);
        },
    }
}

impl Default for Method {
    fn default() -> (r: Method)
        ensures
            r == Method::GET,
    {
        Method::GET
    }
}

impl std::str::FromStr for Method {
    type Err = String;

    /// Reads a method from its name in any case, as `Method::parse` does.
    fn from_str(value: &str) -> (r: Result<Method, String>)
        ensures
            match method_of_name(upper_text(value@)) {
                Some(m) => r == Ok::<Method, String>(m),
                None => r is Err && r->Err_0@ == "Invalid HTTP method "@ + value@,
            },
    {
        Method::parse(value)
    }
}

/// The pairs of name and value that `form_urlencoded::parse` reads out of a
/// query string, percent-decoded, in order.
pub uninterp spec fn query_pairs_of(query: Seq<char>) -> Seq<(Seq<char>, Seq<char>)>;

/// The pairs of texts that a list of string pairs stands for.
pub open spec fn pairs_view(pairs: Seq<(String, String)>) -> Seq<(Seq<char>, Seq<char>)> {
    Seq::new(pairs.len(), |i: int| (pairs[i].0@, pairs[i].1@))
}

/// Wraps `url::form_urlencoded::parse` on the bytes of a query string: the
/// result holds the decoded pairs in the order in which the parser yields
/// them, which depends on the query string alone.
#[verifier::external_body]
fn parse_query(query: &str) -> (r: Vec<(String, String)>)
    ensures
        pairs_view(r@) == query_pairs_of(query@),
{
    url::form_urlencoded::parse(query.as_bytes()).map(|(k, v)| (k.into_owned(), v.into_owned())).collect()
}

/// What a request is, as plain values.
pub struct RequestView {
    pub method: Method,
    pub path: Seq<char>,
    pub query: Option<Seq<char>>,
    pub headers: Seq<HeaderPair>,
    pub body: Seq<u8>,
}

impl RequestView {
    /// The pairs of the query string; none where there is no query string.
    pub open spec fn query_pairs(self) -> Seq<(Seq<char>, Seq<char>)> {
        match self.query {
            Some(q) => query_pairs_of(q),
            None => Seq::empty(),
        }
    }
}

/// A representation of a HTTP request.
#[derive(Debug)]
pub struct Request {
    pub method: Method,
    pub path: String,
    pub query: Option<String>,
    pub headers: Headers,
    pub body: Vec<u8>,
}

impl View for Request {
    type V = RequestView;

    open spec fn view(&self) -> RequestView {
        RequestView {
            method: self.method,
            path: self.path@,
            query: match self.query {
                Some(q) => Some(q@),
                None => None,
            },
            headers: self.headers@,
            body: self.body@,
        }
    }
}

impl Request {
    /// Creates a request for a method and path, without query, headers or
    /// body.
    pub fn new(method: Method, path: &str) -> (r: Request)
        ensures
            r@ == (RequestView {
                method,
                path: path@,
                query: None,
                headers: Seq::empty(),
                body: Seq::empty(),
            }),
    {
        Request {
            method,
            path: String::from_str(path),
            query: None,
            headers: Headers::new(),
            body: Vec::new(),
        }
    }

    /// Creates a request from the parts of a request head. The body is
    /// empty.
    pub fn from_parts(method: Method, path: &str, query: Option<&str>, headers: Headers) -> (r:
        Request)
        ensures
            r@ == (RequestView {
                method,
                path: path@,
                query: match query {
                    Some(q) => Some(q@),
                    None => None,
                },
                headers: headers@,
                body: Seq::empty(),
            }),
    {
        let query = match query {
            Some(q) => Some(String::from_str(q)),
            None => None,
        };
        Request { method, path: String::from_str(path), query, headers, body: Vec::new() }
    }

    /// Replaces the headers.
    pub fn with_headers(self, headers: Headers) -> (r: Request)
        ensures
            r@ == (RequestView { headers: headers@, ..self@ }),
    {
        let mut r = self;
        r.headers = headers;
        r
    }

    /// Replaces the query string.
    pub fn with_query(self, query: &str) -> (r: Request)
        ensures
            r@ == (RequestView { query: Some(query@), ..self@ }),
    {
        let mut r = self;
        r.query = Some(String::from_str(query));
        r
    }

    /// Replaces the body.
    pub fn with_body(self, body: Vec<u8>) -> (r: Request)
        ensures
            r@ == (RequestView { body: body@, ..self@ }),
    {
        let mut r = self;
        r.body = body;
        r
    }

    /// Returns the path.
    pub fn path(&self) -> (r: &str)
        ensures
            r@ == self@.path,
    {
        self.path.as_str()
    }

    /// Returns the query string, if there is one.
    pub fn query(&self) -> (r: Option<&str>)
        ensures
            r is Some <==> self@.query is Some,
            r is Some ==> r->Some_0@ == self@.query->Some_0,
    {
        match &self.query {
            Some(q) => Some(q.as_str()),
            None => None,
        }
    }

    /// Returns the decoded pairs of the query string, in order.
    pub fn query_pairs(&self) -> (r: Vec<(String, String)>)
        ensures
            pairs_view(r@) == self@.query_pairs(),
    {
        match &self.query {
            Some(q) => parse_query(q.as_str()),
            None => {
                let r: Vec<(String, String)> = Vec::new();
                assert(pairs_view(r@) =~= Seq::empty());
                r
            },
        }
    }
}

} // verus!
