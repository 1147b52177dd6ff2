//! When
use crate::body::{concat, Body};
use crate::canonical::{canonical, canonicalize, is_canonical, same_members};
use crate::headers::Headers;
use crate::matchers::{
    any, body, header, header_exists, headers, headers_exact, method, path, path_prefix,
    query_param, query_param_exists, query_params, views_of, Matcher, MatcherView,
};
use crate::request::{pairs_view, Method};
use crate::text::ascii_lower;
use crate::wire::grpc_frame;
use vstd::prelude::*;
use vstd::string::StringSliceAdditionalSpecFns;

verus! {

/// A request match conditions builder: the matchers in the order in which
/// they were added.
#[derive(Debug)]
pub struct When {
    pub matchers: Vec<Matcher>,
}

impl View for When {
    type V = Seq<MatcherView>;

    open spec fn view(&self) -> Seq<MatcherView> {
        views_of(self.matchers@)
    }
}

impl When {
    /// Creates a builder without matchers.
    pub fn new() -> (r: When)
        ensures
            r@ == Seq::<MatcherView>::empty(),
    {
        let r = When { matchers: Vec::new() };
        assert(r@ =~= Seq::<MatcherView>::empty());
        r
    }

    /// Sorts, deduplicates, and returns the inner set of matchers.
    pub fn into_inner(self) -> (r: Vec<Matcher>)
        ensures
            views_of(r@) == canonical(self@),
            is_canonical(views_of(r@)),
            same_members(views_of(r@), self@),
    {
        canonicalize(self.matchers)
    }

    /// Pushes a matcher to the set of matchers.
    fn push(self, matcher: Matcher) -> (r: When)
        ensures
            r@ == self@.push(matcher@),
    {
        let mut r = self;
        let ghost before = r@;
        let ghost added = matcher@;
        r.matchers.push(matcher);
        assert(r@ =~= before.push(added));
        r
    }

    /// Any.
    /// Should not be combined with other matchers.
    pub fn any(self) -> (r: When)
        ensures
            r@ == self@.push(MatcherView::Any),
    {
        self.push(Matcher::Any(any()))
    }

    /// HTTP method.
    pub fn method(self, value: Method) -> (r: When)
        ensures
            r@ == self@.push(MatcherView::Method(value)),
    {
        self.push(Matcher::Method(method(value)))
    }

    /// Path.
    pub fn path(self, value: &str) -> (r: When)
        ensures
            r@ == self@.push(MatcherView::Path(value@)),
    {
        self.push(Matcher::Path(path(value)))
    }

    /// Path prefix.
    pub fn path_prefix(self, prefix: &str) -> (r: When)
        ensures
            r@ == self@.push(MatcherView::PathPrefix(prefix@)),
    {
        self.push(Matcher::PathPrefix(path_prefix(prefix)))
    }

    /// Body.
    pub fn body(self, value: Body) -> (r: When)
        ensures
            r@ == self@.push(MatcherView::Body(value@)),
    {
        self.push(Matcher::Body(body(value)))
    }

    /// Headers: the request has at least these. Names match in any case.
    pub fn headers(self, value: Headers) -> (r: When)
        ensures
            r@ == self@.push(MatcherView::Headers(value@)),
    {
        self.push(Matcher::Headers(headers(value)))
    }

    /// Headers exact.
    pub fn headers_exact(self, value: Headers) -> (r: When)
        ensures
            r@ == self@.push(MatcherView::HeadersExact(value@)),
    {
        self.push(Matcher::HeadersExact(headers_exact(value)))
    }

    /// Header.
    pub fn header(self, name: &str, value: &str) -> (r: When)
        ensures
            r@ == self@.push(MatcherView::Header(ascii_lower(name@), value@)),
    {
        self.push(Matcher::Header(header(name, value)))
    }

    /// Header exists.
    pub fn header_exists(self, name: &str) -> (r: When)
        ensures
            r@ == self@.push(MatcherView::HeaderExists(ascii_lower(name@))),
    {
        self.push(Matcher::HeaderExists(header_exists(name)))
    }

    /// Query params.
    pub fn query_params(self, pairs: Vec<(String, String)>) -> (r: When)
        ensures
            r@ == self@.push(MatcherView::QueryParams(pairs_view(pairs@))),
    {
        self.push(Matcher::QueryParams(query_params(pairs)))
    }

    /// Query param.
    pub fn query_param(self, key: &str, value: &str) -> (r: When)
        ensures
            r@ == self@.push(MatcherView::QueryParam(key@, value@)),
    {
        self.push(Matcher::QueryParam(query_param(key, value)))
    }

    /// Query param exists.
    pub fn query_param_exists(self, key: &str) -> (r: When)
        ensures
            r@ == self@.push(MatcherView::QueryParamExists(key@)),
    {
        self.push(Matcher::QueryParamExists(query_param_exists(key)))
    }

    /// A matcher that was built elsewhere.
    pub fn matcher(self, matcher: Matcher) -> (r: When)
        ensures
            r@ == self@.push(matcher@),
    {
        self.push(matcher)
    }

    /// Empty body.
    pub fn empty(self) -> (r: When)
        ensures
            r@ == self@.push(MatcherView::Body(Seq::empty())),
    {
        self.push(Matcher::Body(body(Body::empty())))
    }

    /// Raw bytes body.
    pub fn bytes(self, value: Vec<u8>) -> (r: When)
        ensures
            r@ == self@.push(MatcherView::Body(value@)),
    {
        self.push(Matcher::Body(body(Body::bytes(value))))
    }

    /// Raw bytes body. Same as `bytes`.
    pub fn raw(self, value: Vec<u8>) -> (r: When)
        ensures
            r@ == self@.push(MatcherView::Body(value@)),
    {
        self.bytes(value)
    }

    /// Raw bytes stream body.
    pub fn bytes_stream(self, messages: Vec<Vec<u8>>) -> (r: When)
        ensures
            r@ == self@.push(MatcherView::Body(Body::Stream(messages)@)),
    {
        self.push(Matcher::Body(body(Body::bytes_stream(messages))))
    }

    /// Text body.
    pub fn text(self, value: &str) -> (r: When)
        ensures
            r@ == self@.push(MatcherView::Body(value.spec_bytes())),
    {
        self.push(Matcher::Body(body(Body::text(value))))
    }

    /// Json body, from a value that is already encoded.
    pub fn json(self, encoded: Vec<u8>) -> (r: When)
        ensures
            r@ == self@.push(MatcherView::Body(encoded@)),
    {
        self.push(Matcher::Body(body(Body::json(encoded))))
    }

    /// Protobuf body, from a message that is already encoded: the body is
    /// the message in a gRPC frame.
    pub fn pb(self, message: &[u8]) -> (r: When)
        ensures
            r@ == self@.push(MatcherView::Body(grpc_frame(message@))),
    {
        self.push(Matcher::Body(body(Body::pb(message))))
    }

    /// Text stream body: the bytes of the texts, one after the other.
    pub fn text_stream(self, messages: &Vec<String>) -> (r: When)
        ensures
            r@ == self@.push(
                MatcherView::Body(
                    concat(
                        Seq::new(messages@.len(), |i: int| vstd::utf8::encode_utf8(messages@[i]@)),
                    ),
                ),
            ),
    {
        self.push(Matcher::Body(body(Body::text_stream(messages))))
    }

    /// Newline delimited JSON streaming body, from values that are already
    /// encoded: each value followed by a line feed, one after the other.
    pub fn json_lines_stream(self, messages: &Vec<Vec<u8>>) -> (r: When)
        ensures
            r@ == self@.push(
                MatcherView::Body(
                    concat(Seq::new(messages@.len(), |i: int| messages@[i]@.push(10u8))),
                ),
            ),
    {
        self.push(Matcher::Body(body(Body::json_lines_stream(messages))))
    }

    /// Protobuf streaming body, from messages that are already encoded: the
    /// gRPC frames of the messages, one after the other.
    pub fn pb_stream(self, messages: &Vec<Vec<u8>>) -> (r: When)
        ensures
            r@ == self@.push(
                MatcherView::Body(
                    concat(Seq::new(messages@.len(), |i: int| grpc_frame(messages@[i]@))),
                ),
            ),
    {
        self.push(Matcher::Body(body(Body::pb_stream(messages))))
    }

    /// HTTP GET method.
    pub fn get(self) -> (r: When)
        ensures
            r@ == self@.push(MatcherView::Method(Method::GET)),
    {
        self.method(Method::GET)
    }

    /// HTTP POST method.
    pub fn post(self) -> (r: When)
        ensures
            r@ == self@.push(MatcherView::Method(Method::POST)),
    {
        self.method(Method::POST)
    }

    /// HTTP PUT method.
    pub fn put(self) -> (r: When)
        ensures
            r@ == self@.push(MatcherView::Method(Method::PUT)),
    {
        self.method(Method::PUT)
    }

    /// HTTP DELETE method.
    pub fn delete(self) -> (r: When)
        ensures
            r@ == self@.push(MatcherView::Method(Method::DELETE)),
    {
        self.method(Method::DELETE)
    }

    /// HTTP HEAD method.
    pub fn head(self) -> (r: When)
        ensures
            r@ == self@.push(MatcherView::Method(Method::HEAD)),
    {
        self.method(Method::HEAD)
    }
}

impl Default for When {
    fn default() -> (r: When)
        ensures
            r@ == Seq::<MatcherView>::empty(),
    {
        When::new()
    }
}

} // verus!
