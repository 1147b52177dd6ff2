//! Mock request matchers
use crate::body::Body;
use crate::headers::{has_name, is_sublist, HeaderPair, Headers};
use crate::request::{pairs_view, Method, Request, RequestView};
use crate::text::{ascii_lower, str_eq, str_starts_with, to_ascii_lowercase};
use vstd::prelude::*;
use vstd::string::StringExecFns;

verus! {

/// A pair of texts: a key of a query string and its value.
pub type TextPair = (Seq<char>, Seq<char>);

/// Whether some pair in the list has the given key.
pub open spec fn has_key(pairs: Seq<TextPair>, key: Seq<char>) -> bool {
    exists|i: int| 0 <= i < pairs.len() && (#[trigger] pairs[i]).0 == key
}

/// Any matcher: matches every request.
#[derive(Debug)]
pub struct AnyMatcher;

impl AnyMatcher {
    /// Matcher name.
    pub fn name(&self) -> (r: &'static str)
        ensures
            r@ == "any"@,
    {
        "any"
    }

    /// Evaluates the match condition.
    pub fn matches(&self, _req: &Request) -> (r: bool)
        ensures
            r,
    {
        true
    }
}

/// Creates a matcher for every request.
pub fn any() -> (r: AnyMatcher)
    ensures
        r == AnyMatcher,
{
    AnyMatcher
}

/// HTTP method matcher.
#[derive(Debug)]
pub struct MethodMatcher(pub Method);

impl MethodMatcher {
    /// Matcher name.
    pub fn name(&self) -> (r: &'static str)
        ensures
            r@ == "method"@,
    {
        "method"
    }

    /// Evaluates the match condition: the request has this method.
    pub fn matches(&self, req: &Request) -> (r: bool)
        ensures
            r == (req@.method == self.0),
    {
        req.method == self.0
    }
}

/// Creates a matcher for the requests with this method.
pub fn method(value: Method) -> (r: MethodMatcher)
    ensures
        r.0 == value,
{
    MethodMatcher(value)
}

/// Path matcher.
#[derive(Debug)]
pub struct PathMatcher(pub String);

impl PathMatcher {
    /// Matcher name.
    pub fn name(&self) -> (r: &'static str)
        ensures
            r@ == "path"@,
    {
        "path"
    }

    /// Evaluates the match condition: the request has exactly this path.
    pub fn matches(&self, req: &Request) -> (r: bool)
        ensures
            r == (req@.path == self.0@),
    {
        str_eq(req.path(), self.0.as_str())
    }
}

/// Creates a matcher for the requests with exactly this path.
pub fn path(value: &str) -> (r: PathMatcher)
    ensures
        r.0@ == value@,
{
    PathMatcher(String::from_str(value))
}

/// Path prefix matcher.
#[derive(Debug)]
pub struct PathPrefixMatcher(pub String);

impl PathPrefixMatcher {
    /// Matcher name.
    pub fn name(&self) -> (r: &'static str)
        ensures
            r@ == "path_prefix"@,
    {
        "path_prefix"
    }

    /// Evaluates the match condition: the request's path starts with this
    /// prefix.
    pub fn matches(&self, req: &Request) -> (r: bool)
        ensures
            r == self.0@.is_prefix_of(req@.path),
    {
        str_starts_with(req.path(), self.0.as_str())
    }
}

/// Creates a matcher for the requests whose path starts with this prefix.
pub fn path_prefix(prefix: &str) -> (r: PathPrefixMatcher)
    ensures
        r.0@ == prefix@,
{
    PathPrefixMatcher(String::from_str(prefix))
}

/// Body matcher.
#[derive(Debug)]
pub struct BodyMatcher(pub Body);

impl BodyMatcher {
    /// Matcher name.
    pub fn name(&self) -> (r: &'static str)
        ensures
            r@ == "body"@,
    {
        "body"
    }

    /// Evaluates the match condition: the bytes of the request's body are
    /// the bytes of this body, however either is cut into frames.
    pub fn matches(&self, req: &Request) -> (r: bool)
        ensures
            r == (req@.body == self.0@),
    {
        self.0.matches_bytes(req.body.as_slice())
    }
}

/// Creates a matcher for the requests with this body.
pub fn body(value: Body) -> (r: BodyMatcher)
    ensures
        r.0 == value,
{
    BodyMatcher(value)
}

/// Headers matcher.
#[derive(Debug)]
pub struct HeadersMatcher(pub Headers);

impl HeadersMatcher {
    /// Matcher name.
    pub fn name(&self) -> (r: &'static str)
        ensures
            r@ == "headers"@,
    {
        "headers"
    }

    /// Evaluates the match condition: the request has at least these
    /// headers.
    pub fn matches(&self, req: &Request) -> (r: bool)
        ensures
            r == is_sublist(self.0@, req@.headers),
    {
        req.headers.is_superset(&self.0)
    }
}

/// Creates a matcher for the requests that have at least these headers.
pub fn headers(value: Headers) -> (r: HeadersMatcher)
    ensures
        r.0 == value,
{
    HeadersMatcher(value)
}

/// Headers exact matcher.
#[derive(Debug)]
pub struct HeadersExactMatcher(pub Headers);

impl HeadersExactMatcher {
    /// Matcher name.
    pub fn name(&self) -> (r: &'static str)
        ensures
            r@ == "headers_exact"@,
    {
        "headers_exact"
    }

    /// Evaluates the match condition: the request has exactly these
    /// headers, in this order.
    pub fn matches(&self, req: &Request) -> (r: bool)
        ensures
            r == (req@.headers == self.0@),
    {
        req.headers.same_as(&self.0)
    }
}

/// Creates a matcher for the requests that have exactly these headers.
pub fn headers_exact(value: Headers) -> (r: HeadersExactMatcher)
    ensures
        r.0 == value,
{
    HeadersExactMatcher(value)
}

/// Header matcher: a name, held in lower case, and a value.
#[derive(Debug)]
pub struct HeaderMatcher(pub String, pub String);

impl HeaderMatcher {
    /// Matcher name.
    pub fn name(&self) -> (r: &'static str)
        ensures
            r@ == "header"@,
    {
        "header"
    }

    /// Evaluates the match condition: the request has a header with this
    /// name, in any case, and this value.
    pub fn matches(&self, req: &Request) -> (r: bool)
        ensures
            r == req@.headers.contains((ascii_lower(self.0@), self.1@)),
    {
        req.headers.contains(self.0.as_str(), self.1.as_str())
    }
}

/// Creates a matcher for the requests that have this header.
pub fn header(name: &str, value: &str) -> (r: HeaderMatcher)
    ensures
        r.0@ == ascii_lower(name@),
        r.1@ == value@,
{
    HeaderMatcher(to_ascii_lowercase(name), String::from_str(value))
}

/// Header exists matcher: a name, held in lower case.
#[derive(Debug)]
pub struct HeaderExistsMatcher(pub String);

impl HeaderExistsMatcher {
    /// Matcher name.
    pub fn name(&self) -> (r: &'static str)
        ensures
            r@ == "header_exists"@,
    {
        "header_exists"
    }

    /// Evaluates the match condition: the request has a header with this
    /// name, in any case.
    pub fn matches(&self, req: &Request) -> (r: bool)
        ensures
            r == has_name(req@.headers, ascii_lower(self.0@)),
    {
        req.headers.contains_name(self.0.as_str())
    }
}

/// Creates a matcher for the requests that have a header with this name.
pub fn header_exists(name: &str) -> (r: HeaderExistsMatcher)
    ensures
        r.0@ == ascii_lower(name@),
{
    HeaderExistsMatcher(to_ascii_lowercase(name))
}

/// Query params matcher.
#[derive(Debug)]
pub struct QueryParamsMatcher(pub Vec<(String, String)>);

impl QueryParamsMatcher {
    /// Matcher name.
    pub fn name(&self) -> (r: &'static str)
        ensures
            r@ == "query_params"@,
    {
        "query_params"
    }

    /// Evaluates the match condition: the pairs of the request's query
    /// string are exactly these, in this order.
    pub fn matches(&self, req: &Request) -> (r: bool)
        ensures
            r == (req@.query_pairs() == pairs_view(self.0@)),
    {
        let pairs = req.query_pairs();
        self.matches_pairs(&pairs)
    }

    /// Evaluates the match condition on the pairs of a query string.
    pub fn matches_pairs(&self, pairs: &Vec<(String, String)>) -> (r: bool)
        ensures
            r == (pairs_view(pairs@) == pairs_view(self.0@)),
    {
        if pairs.len() != self.0.len() {
            assert(pairs_view(pairs@).len() != pairs_view(self.0@).len());
            return false;
        }
        let mut i: usize = 0;
        while i < pairs.len()
            invariant
                i <= pairs.len(),
                pairs.len() == self.0.len(),
                forall|j: int| 0 <= j < i ==> pairs_view(pairs@)[j] == pairs_view(self.0@)[j],
            decreases pairs.len() - i,
        {
            if !(str_eq(pairs[i].0.as_str(), self.0[i].0.as_str()) && str_eq(
                pairs[i].1.as_str(),
                self.0[i].1.as_str(),
            )) {
                assert(pairs_view(pairs@)[i as int] != pairs_view(self.0@)[i as int]);
                return false;
            }
            i += 1;
        }
        assert(pairs_view(pairs@) =~= pairs_view(self.0@));
        true
    }
}

/// Creates a matcher for the requests whose query string holds exactly
/// these pairs.
pub fn query_params(pairs: Vec<(String, String)>) -> (r: QueryParamsMatcher)
    ensures
        r.0 == pairs,
{
    QueryParamsMatcher(pairs)
}

/// Query param matcher.
#[derive(Debug)]
pub struct QueryParamMatcher(pub String, pub String);

impl QueryParamMatcher {
    /// Matcher name.
    pub fn name(&self) -> (r: &'static str)
        ensures
            r@ == "query_param"@,
    {
        "query_param"
    }

    /// Evaluates the match condition: the request's query string holds this
    /// key with this value.
    pub fn matches(&self, req: &Request) -> (r: bool)
        ensures
            r == req@.query_pairs().contains((self.0@, self.1@)),
    {
        let pairs = req.query_pairs();
        self.matches_pairs(&pairs)
    }

    /// Evaluates the match condition on the pairs of a query string.
    pub fn matches_pairs(&self, pairs: &Vec<(String, String)>) -> (r: bool)
        ensures
            r == pairs_view(pairs@).contains((self.0@, self.1@)),
    {
        let mut i: usize = 0;
        while i < pairs.len()
            invariant
                i <= pairs.len(),
                forall|j: int| 0 <= j < i ==> pairs_view(pairs@)[j] != (self.0@, self.1@),
            decreases pairs.len() - i,
        {
            if str_eq(pairs[i].0.as_str(), self.0.as_str()) && str_eq(
                pairs[i].1.as_str(),
                self.1.as_str(),
            ) {
                assert(pairs_view(pairs@)[i as int] == (self.0@, self.1@));
                return true;
            }
            i += 1;
        }
        false
    }
}

/// Creates a matcher for the requests whose query string holds this key
/// with this value.
pub fn query_param(key: &str, value: &str) -> (r: QueryParamMatcher)
    ensures
        r.0@ == key@,
        r.1@ == value@,
{
    QueryParamMatcher(String::from_str(key), String::from_str(value))
}

/// Query param exists matcher.
#[derive(Debug)]
pub struct QueryParamExistsMatcher(pub String);

impl QueryParamExistsMatcher {
    /// Matcher name.
    pub fn name(&self) -> (r: &'static str)
        ensures
            r@ == "query_param_exists"@,
    {
        "query_param_exists"
    }

    /// Evaluates the match condition: the request's query string holds this
    /// key.
    pub fn matches(&self, req: &Request) -> (r: bool)
        ensures
            r == has_key(req@.query_pairs(), self.0@),
    {
        let pairs = req.query_pairs();
        self.matches_pairs(&pairs)
    }

    /// Evaluates the match condition on the pairs of a query string.
    pub fn matches_pairs(&self, pairs: &Vec<(String, String)>) -> (r: bool)
        ensures
            r == has_key(pairs_view(pairs@), self.0@),
    {
        let mut i: usize = 0;
        while i < pairs.len()
            invariant
                i <= pairs.len(),
                forall|j: int| 0 <= j < i ==> (#[trigger] pairs_view(pairs@)[j]).0 != self.0@,
            decreases pairs.len() - i,
        {
            if str_eq(pairs[i].0.as_str(), self.0.as_str()) {
                assert(pairs_view(pairs@)[i as int].0 == self.0@);
                return true;
            }
            i += 1;
        }
        false
    }
}

/// Creates a matcher for the requests whose query string holds this key.
pub fn query_param_exists(key: &str) -> (r: QueryParamExistsMatcher)
    ensures
        r.0@ == key@,
{
    QueryParamExistsMatcher(String::from_str(key))
}

/// What a matcher is, as plain values: its kind and its parameters.
pub enum MatcherView {
    Any,
    Method(Method),
    Path(Seq<char>),
    PathPrefix(Seq<char>),
    Body(Seq<u8>),
    Headers(Seq<HeaderPair>),
    HeadersExact(Seq<HeaderPair>),
    Header(Seq<char>, Seq<char>),
    HeaderExists(Seq<char>),
    QueryParams(Seq<TextPair>),
    QueryParam(Seq<char>, Seq<char>),
    QueryParamExists(Seq<char>),
}

impl MatcherView {
    /// Whether a matcher with this kind and these parameters matches the
    /// request.
    pub open spec fn matches(self, req: RequestView) -> bool {
        match self {
            MatcherView::Any => true,
            MatcherView::Method(m) => req.method == m,
            MatcherView::Path(p) => req.path == p,
            MatcherView::PathPrefix(p) => p.is_prefix_of(req.path),
            MatcherView::Body(b) => req.body == b,
            MatcherView::Headers(h) => is_sublist(h, req.headers),
            MatcherView::HeadersExact(h) => req.headers == h,
            MatcherView::Header(n, v) => req.headers.contains((ascii_lower(n), v)),
            MatcherView::HeaderExists(n) => has_name(req.headers, ascii_lower(n)),
            MatcherView::QueryParams(ps) => req.query_pairs() == ps,
            MatcherView::QueryParam(k, v) => req.query_pairs().contains((k, v)),
            MatcherView::QueryParamExists(k) => has_key(req.query_pairs(), k),
        }
    }

    /// The name of the matcher's kind.
    pub open spec fn name(self) -> Seq<char> {
        match self {
            MatcherView::Any => "any"@,
            MatcherView::Method(_) => "method"@,
            MatcherView::Path(_) => "path"@,
            MatcherView::PathPrefix(_) => "path_prefix"@,
            MatcherView::Body(_) => "body"@,
            MatcherView::Headers(_) => "headers"@,
            MatcherView::HeadersExact(_) => "headers_exact"@,
            MatcherView::Header(_, _) => "header"@,
            MatcherView::HeaderExists(_) => "header_exists"@,
            MatcherView::QueryParams(_) => "query_params"@,
            MatcherView::QueryParam(_, _) => "query_param"@,
            MatcherView::QueryParamExists(_) => "query_param_exists"@,
        }
    }
}

/// A matcher: one predicate over a request, of one of a fixed set of kinds.
#[derive(Debug)]
pub enum Matcher {
    Any(AnyMatcher),
    Method(MethodMatcher),
    Path(PathMatcher),
    PathPrefix(PathPrefixMatcher),
    Body(BodyMatcher),
    Headers(HeadersMatcher),
    HeadersExact(HeadersExactMatcher),
    Header(HeaderMatcher),
    HeaderExists(HeaderExistsMatcher),
    QueryParams(QueryParamsMatcher),
    QueryParam(QueryParamMatcher),
    QueryParamExists(QueryParamExistsMatcher),
}

impl View for Matcher {
    type V = MatcherView;

    open spec fn view(&self) -> MatcherView {
        match self {
            Matcher::Any(_) => MatcherView::Any,
            Matcher::Method(m) => MatcherView::Method(m.0),
            Matcher::Path(m) => MatcherView::Path(m.0@),
            Matcher::PathPrefix(m) => MatcherView::PathPrefix(m.0@),
            Matcher::Body(m) => MatcherView::Body(m.0@),
            Matcher::Headers(m) => MatcherView::Headers(m.0@),
            Matcher::HeadersExact(m) => MatcherView::HeadersExact(m.0@),
            Matcher::Header(m) => MatcherView::Header(m.0@, m.1@),
            Matcher::HeaderExists(m) => MatcherView::HeaderExists(m.0@),
            Matcher::QueryParams(m) => MatcherView::QueryParams(pairs_view(m.0@)),
            Matcher::QueryParam(m) => MatcherView::QueryParam(m.0@, m.1@),
            Matcher::QueryParamExists(m) => MatcherView::QueryParamExists(m.0@),
        }
    }
}

impl Matcher {
    /// Matcher name.
    pub fn name(&self) -> (r: &'static str)
        ensures
            r@ == self@.name(),
    {
        match self {
            Matcher::Any(m) => m.name(),
            Matcher::Method(m) => m.name(),
            Matcher::Path(m) => m.name(),
            Matcher::PathPrefix(m) => m.name(),
            Matcher::Body(m) => m.name(),
            Matcher::Headers(m) => m.name(),
            Matcher::HeadersExact(m) => m.name(),
            Matcher::Header(m) => m.name(),
            Matcher::HeaderExists(m) => m.name(),
            Matcher::QueryParams(m) => m.name(),
            Matcher::QueryParam(m) => m.name(),
            Matcher::QueryParamExists(m) => m.name(),
        }
    }

    /// Evaluates the match condition.
    pub fn matches(&self, req: &Request) -> (r: bool)
        ensures
            r == self@.matches(req@),
    {
        match self {
            Matcher::Any(m) => m.matches(req),
            Matcher::Method(m) => m.matches(req),
            Matcher::Path(m) => m.matches(req),
            Matcher::PathPrefix(m) => m.matches(req),
            Matcher::Body(m) => m.matches(req),
            Matcher::Headers(m) => m.matches(req),
            Matcher::HeadersExact(m) => m.matches(req),
            Matcher::Header(m) => m.matches(req),
            Matcher::HeaderExists(m) => m.matches(req),
            Matcher::QueryParams(m) => m.matches(req),
            Matcher::QueryParam(m) => m.matches(req),
            Matcher::QueryParamExists(m) => m.matches(req),
        }
    }

    /// Returns a copy of the matcher.
    pub fn duplicate(&self) -> (r: Matcher)
        ensures
            r@ == self@,
    {
        match self {
            Matcher::Any(_) => Matcher::Any(AnyMatcher),
            Matcher::Method(m) => Matcher::Method(MethodMatcher(m.0)),
            Matcher::Path(m) => Matcher::Path(PathMatcher(m.0.clone())),
            Matcher::PathPrefix(m) => Matcher::PathPrefix(PathPrefixMatcher(m.0.clone())),
            Matcher::Body(m) => Matcher::Body(BodyMatcher(m.0.duplicate())),
            Matcher::Headers(m) => Matcher::Headers(HeadersMatcher(m.0.duplicate())),
            Matcher::HeadersExact(m) => Matcher::HeadersExact(
                HeadersExactMatcher(m.0.duplicate()),
            ),
            Matcher::Header(m) => Matcher::Header(HeaderMatcher(m.0.clone(), m.1.clone())),
            Matcher::HeaderExists(m) => Matcher::HeaderExists(HeaderExistsMatcher(m.0.clone())),
            Matcher::QueryParams(m) => {
                let mut pairs: Vec<(String, String)> = Vec::new();
                let mut i: usize = 0;
                while i < m.0.len()
                    invariant
                        i <= m.0.len(),
                        pairs_view(pairs@) == pairs_view(m.0@).subrange(0, i as int),
                    decreases m.0.len() - i,
                {
                    let ghost before = pairs_view(pairs@);
                    pairs.push((m.0[i].0.clone(), m.0[i].1.clone()));
                    assert(pairs_view(pairs@) =~= before.push(pairs_view(m.0@)[i as int]));
                    assert(before.push(pairs_view(m.0@)[i as int]) =~= pairs_view(m.0@).subrange(
                        0,
                        i as int + 1,
                    ));
                    i += 1;
                }
                assert(pairs_view(m.0@).subrange(0, i as int) =~= pairs_view(m.0@));
                Matcher::QueryParams(QueryParamsMatcher(pairs))
            },
            Matcher::QueryParam(m) => Matcher::QueryParam(
                QueryParamMatcher(m.0.clone(), m.1.clone()),
            ),
            Matcher::QueryParamExists(m) => Matcher::QueryParamExists(
                QueryParamExistsMatcher(m.0.clone()),
            ),
        }
    }
}

impl Clone for Matcher {
    fn clone(&self) -> (r: Matcher)
        ensures
            r@ == self@,
    {
        self.duplicate()
    }
}

/// The views of a list of matchers.
pub open spec fn views_of(matchers: Seq<Matcher>) -> Seq<MatcherView> {
    Seq::new(matchers.len(), |i: int| matchers[i]@)
}

/// Whether every matcher of the list matches the request. An empty list
/// matches every request.
pub open spec fn all_match(matchers: Seq<MatcherView>, req: RequestView) -> bool {
    forall|i: int| 0 <= i < matchers.len() ==> (#[trigger] matchers[i]).matches(req)
}

} // verus!
