//! Mock
use crate::canonical::{canonical, is_canonical};
use crate::matchers::{all_match, views_of, Matcher, MatcherView};
use crate::mock_builder::{Then, When};
use crate::request::{Request, RequestView};
use crate::response::{Response, ResponseView};
use vstd::prelude::*;
use vstd::std_specs::cmp::PartialEqSpec;

verus! {

/// Priority of a mock that was given none. Lower values are evaluated
/// first.
pub const DEFAULT_PRIORITY: u8 = 5;

/// Wraps `uuid::Uuid::now_v7` and `Uuid::as_u128`: a new version 7
/// identifier, made from the current time and random bits, as a number.
/// Nothing is promised of its value.
#[verifier::external_body]
fn new_id() -> (r: u128) {
    uuid::Uuid::now_v7().as_u128()
}

/// What a mock is compared by, as plain values: everything but its
/// identifier.
pub struct MockView {
    pub matchers: Seq<MatcherView>,
    pub response: ResponseView,
    pub priority: u8,
    pub match_count: nat,
    pub limit: Option<nat>,
}

impl MockView {
    /// Whether the mock has been matched as often as its limit allows.
    pub open spec fn exhausted(self) -> bool {
        match self.limit {
            Some(limit) => self.match_count >= limit,
            None => false,
        }
    }

    /// Whether the mock applies to the request: its limit is not reached
    /// and every one of its matchers matches. A mock without matchers
    /// applies to every request.
    pub open spec fn accepts(self, req: RequestView) -> bool {
        !self.exhausted() && all_match(self.matchers, req)
    }

    /// The mock after one more match. The counter wraps around at the
    /// largest number it can hold.
    pub open spec fn counted(self) -> MockView {
        MockView {
            match_count: if self.match_count >= usize::MAX {
                0
            } else {
                self.match_count + 1
            },
            ..self
        }
    }
}

/// A mock.
#[derive(Debug)]
pub struct Mock {
    /// Mock ID.
    pub id: u128,
    /// A set of request match conditions.
    pub matchers: Vec<Matcher>,
    /// A mock response.
    pub response: Response,
    /// Priority.
    pub priority: u8,
    /// Match counter.
    pub match_count: usize,
    /// Limit on how many times this mock can be matched.
    pub limit: Option<usize>,
}

impl View for Mock {
    type V = MockView;

    open spec fn view(&self) -> MockView {
        MockView {
            matchers: views_of(self.matchers@),
            response: self.response@,
            priority: self.priority,
            match_count: self.match_count as nat,
            limit: match self.limit {
                Some(limit) => Some(limit as nat),
                None => None,
            },
        }
    }
}

impl Mock {
    /// Builds a mock from its conditions and its response. The matchers are
    /// put in canonical form: sorted, without duplicates.
    pub fn new(when: When, then: Then) -> (r: Mock)
        ensures
            r@ == (MockView {
                matchers: canonical(when@),
                response: then@,
                priority: DEFAULT_PRIORITY,
                match_count: 0,
                limit: None,
            }),
            is_canonical(r@.matchers),
            r.response == then.response,
    {
        let id = new_id();
        Mock {
            id,
            matchers: when.into_inner(),
            response: then.into_inner(),
            priority: DEFAULT_PRIORITY,
            match_count: 0,
            limit: None,
        }
    }

    /// Sets the mock priority.
    pub fn with_priority(self, priority: u8) -> (r: Mock)
        ensures
            r@ == (MockView { priority, ..self@ }),
            r.id == self.id,
            r.response == self.response,
    {
        let mut r = self;
        r.priority = priority;
        r
    }

    /// Sets the mock limit.
    pub fn with_limit(self, limit: usize) -> (r: Mock)
        ensures
            r@ == (MockView { limit: Some(limit as nat), ..self@ }),
            r.id == self.id,
            r.response == self.response,
    {
        let mut r = self;
        r.limit = Some(limit);
        r
    }

    /// Returns the mock ID.
    pub fn id(&self) -> (r: u128)
        ensures
            r == self.id,
    {
        self.id
    }

    /// Returns the mock response.
    pub fn response(&self) -> (r: &Response)
        ensures
            *r == self.response,
    {
        &self.response
    }

    /// Returns the mock priority.
    pub fn priority(&self) -> (r: u8)
        ensures
            r == self@.priority,
    {
        self.priority
    }

    /// Returns the match count.
    pub fn match_count(&self) -> (r: usize)
        ensures
            r == self@.match_count,
    {
        self.match_count
    }

    /// Returns the limit, if there is one.
    pub fn limit(&self) -> (r: Option<usize>)
        ensures
            r == self.limit,
    {
        self.limit
    }

    /// Tells whether the mock applies to the request, without counting.
    pub fn accepts(&self, req: &Request) -> (r: bool)
        ensures
            r == self@.accepts(req@),
    {
        if let Some(limit) = self.limit {
            if self.match_count >= limit {
                return false;
            }
        }
        let mut i: usize = 0;
        while i < self.matchers.len()
            invariant
                i <= self.matchers.len(),
                !self@.exhausted(),
                forall|j: int| 0 <= j < i ==> (#[trigger] self@.matchers[j]).matches(req@),
            decreases self.matchers.len() - i,
        {
            if !self.matchers[i].matches(req) {
                assert(!self@.matchers[i as int].matches(req@));
                return false;
            }
            i += 1;
        }
        true
    }

    /// Evaluates a request against match conditions, and counts the match
    /// if there is one. A mock that has reached its limit matches nothing.
    pub fn matches(&mut self, req: &Request) -> (r: bool)
        ensures
            r == old(self)@.accepts(req@),
            r ==> final(self)@ == old(self)@.counted(),
            !r ==> final(self)@ == old(self)@,
            final(self).id == old(self).id,
            final(self).response == old(self).response,
    {
        let matched = self.accepts(req);
        if matched {
            self.match_count = if self.match_count == usize::MAX {
                0
            } else {
                self.match_count + 1
            };
        }
        matched
    }

    /// Resets the match counter.
    pub fn reset(&mut self)
        ensures
            final(self)@ == (MockView { match_count: 0, ..old(self)@ }),
            final(self).id == old(self).id,
            final(self).response == old(self).response,
    {
        self.match_count = 0;
    }

    /// Returns a copy of the mock, with the same identifier.
    pub fn duplicate(&self) -> (r: Mock)
        ensures
            r@ == self@,
            r.id == self.id,
            r.response.frames() == self.response.frames(),
    {
        let mut matchers: Vec<Matcher> = Vec::new();
        let mut i: usize = 0;
        while i < self.matchers.len()
            invariant
                i <= self.matchers.len(),
                views_of(matchers@) == views_of(self.matchers@).subrange(0, i as int),
            decreases self.matchers.len() - i,
        {
            let ghost before = views_of(matchers@);
            matchers.push(self.matchers[i].duplicate());
            assert(views_of(matchers@) =~= before.push(self.matchers@[i as int]@));
            assert(before.push(self.matchers@[i as int]@) =~= views_of(self.matchers@).subrange(
                0,
                i as int + 1,
            ));
            i += 1;
        }
        assert(views_of(self.matchers@).subrange(0, i as int) =~= views_of(self.matchers@));
        Mock {
            id: self.id,
            matchers,
            response: self.response.duplicate(),
            priority: self.priority,
            match_count: self.match_count,
            limit: self.limit,
        }
    }

    /// Returns true if both mocks have the same matchers, response,
    /// priority, match count and limit. The identifier is not compared.
    pub fn same_as(&self, other: &Mock) -> (r: bool)
        ensures
            r == (self@ == other@),
    {
        let same_limit = match (self.limit, other.limit) {
            (Some(a), Some(b)) => a == b,
            (None, None) => true,
            _ => false,
        };
        if !(same_limit && self.priority == other.priority && self.match_count
            == other.match_count && self.response.same_as(&other.response)) {
            return false;
        }
        if self.matchers.len() != other.matchers.len() {
            assert(self@.matchers.len() != other@.matchers.len());
            return false;
        }
        let mut i: usize = 0;
        while i < self.matchers.len()
            invariant
                i <= self.matchers.len(),
                self.matchers.len() == other.matchers.len(),
                forall|j: int| 0 <= j < i ==> self@.matchers[j] == other@.matchers[j],
            decreases self.matchers.len() - i,
        {
            if !self.matchers[i].same_as(&other.matchers[i]) {
                assert(self@.matchers[i as int] != other@.matchers[i as int]);
                return false;
            }
            i += 1;
        }
        assert(self@.matchers =~= other@.matchers);
        true
    }
}

impl Clone for Mock {
    fn clone(&self) -> (r: Mock)
        ensures
            r@ == self@,
            r.id == self.id,
            r.response.frames() == self.response.frames(),
    {
        self.duplicate()
    }
}

impl PartialEq for Mock {
    fn eq(&self, other: &Mock) -> (r: bool) {
        self.same_as(other)
    }
}

impl vstd::std_specs::cmp::PartialEqSpecImpl for Mock {
    open spec fn obeys_eq_spec() -> bool {
        true
    }

    open spec fn eq_spec(&self, other: &Mock) -> bool {
        self@ == other@
    }
}

/// Two mocks that were built from the same matchers given in different
/// orders, with the same response, compare equal.
pub proof fn lemma_mock_ignores_matcher_order(a: Mock, b: Mock, wa: When, wb: When, t: Then)
    requires
        wa@.to_multiset() == wb@.to_multiset(),
        a@ == (MockView {
            matchers: canonical(wa@),
            response: t@,
            priority: DEFAULT_PRIORITY,
            match_count: 0,
            limit: None,
        }),
        b@ == (MockView {
            matchers: canonical(wb@),
            response: t@,
            priority: DEFAULT_PRIORITY,
            match_count: 0,
            limit: None,
        }),
    ensures
        a@ == b@,
        a.eq_spec(&b),
{
    crate::canonical::lemma_canonical_ignores_order(wa@, wb@);
}

/// The matchers of a mock in canonical form decide the same as the
/// matchers that were given: the mock applies to exactly the requests that
/// every given matcher matches.
pub proof fn lemma_canonical_matches_the_same(given: Seq<MatcherView>, req: RequestView)
    ensures
        all_match(canonical(given), req) <==> all_match(given, req),
{
    crate::canonical::lemma_canonical_form(given);
    let c = canonical(given);
    if all_match(given, req) {
        assert forall|i: int| 0 <= i < c.len() implies (#[trigger] c[i]).matches(req) by {
            assert(c.contains(c[i]));
            assert(given.contains(c[i]));
            let k = choose|k: int| 0 <= k < given.len() && given[k] == c[i];
            assert(given[k].matches(req));
        }
    }
    if all_match(c, req) {
        assert forall|i: int| 0 <= i < given.len() implies (#[trigger] given[i]).matches(req) by {
            assert(given.contains(given[i]));
            assert(c.contains(given[i]));
            let k = choose|k: int| 0 <= k < c.len() && c[k] == given[i];
            assert(c[k].matches(req));
        }
    }
}

} // verus!
