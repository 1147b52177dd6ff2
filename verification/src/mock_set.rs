//! A set of mocks, kept in the order in which they are tried.
use crate::matchers::MatcherView;
use crate::mock::{Mock, MockView};
use crate::mock_builder::{Then, When};
use crate::request::{Request, RequestView};
use crate::response::Response;
use vstd::prelude::*;

verus! {

/// Whether the mocks stand in ascending order of priority.
pub open spec fn is_sorted(s: Seq<MockView>) -> bool {
    forall|i: int, j: int| 0 <= i < j < s.len() ==> (#[trigger] s[i]).priority <= (
    #[trigger] s[j]).priority
}

/// The position of the first mock whose priority is greater than `p`; the
/// length of the list if there is none. This is where a mock of priority
/// `p` goes: behind every mock that is tried no later than it.
pub open spec fn insert_position(s: Seq<MockView>, p: u8) -> int
    decreases s.len(),
{
    if s.len() == 0 {
        0
    } else if s[0].priority > p {
        0
    } else {
        1 + insert_position(s.drop_first(), p)
    }
}

/// The list after a mock is inserted: unchanged if it holds an equal mock,
/// else with the mock at its position.
pub open spec fn insert_mock(s: Seq<MockView>, m: MockView) -> Seq<MockView> {
    if s.contains(m) {
        s
    } else {
        s.insert(insert_position(s, m.priority), m)
    }
}

/// The position of the first mock that applies to the request.
pub open spec fn first_match(s: Seq<MockView>, req: RequestView) -> Option<int>
    decreases s.len(),
{
    if s.len() == 0 {
        None
    } else if s[0].accepts(req) {
        Some(0)
    } else {
        match first_match(s.drop_first(), req) {
            Some(i) => Some(i + 1),
            None => None,
        }
    }
}

/// The insert position lies in the list, with no greater priority before it
/// and only greater priorities from it on.
pub proof fn lemma_insert_position(s: Seq<MockView>, p: u8)
    requires
        is_sorted(s),
    ensures
        0 <= insert_position(s, p) <= s.len(),
        forall|i: int| 0 <= i < insert_position(s, p) ==> (#[trigger] s[i]).priority <= p,
        forall|i: int| insert_position(s, p) <= i < s.len() ==> (#[trigger] s[i]).priority > p,
    decreases s.len(),
{
    if s.len() == 0 {
    } else if s[0].priority > p {
        assert forall|i: int| 0 <= i < s.len() implies (#[trigger] s[i]).priority > p by {
            if i > 0 {
                assert(s[0].priority <= s[i].priority);
            }
        }
    } else {
        let t = s.drop_first();
        assert(is_sorted(t)) by {
            assert forall|i: int, j: int| 0 <= i < j < t.len() implies (#[trigger] t[i]).priority
                <= (#[trigger] t[j]).priority by {
                assert(s[i + 1].priority <= s[j + 1].priority);
            }
        }
        lemma_insert_position(t, p);
        let k = insert_position(t, p);
        assert forall|i: int| 0 <= i < k + 1 implies (#[trigger] s[i]).priority <= p by {
            if i > 0 {
                assert(t[i - 1].priority <= p);
            }
        }
        assert forall|i: int| k + 1 <= i < s.len() implies (#[trigger] s[i]).priority > p by {
            assert(t[i - 1].priority > p);
        }
    }
}

/// Inserting into a sorted list gives a sorted list in which the mocks that
/// were there keep their order.
pub proof fn lemma_insert_keeps_sorted(s: Seq<MockView>, m: MockView)
    requires
        is_sorted(s),
    ensures
        is_sorted(insert_mock(s, m)),
        insert_mock(s, m).contains(m),
{
    if s.contains(m) {
    } else {
        lemma_insert_position(s, m.priority);
        let k = insert_position(s, m.priority);
        let r = s.insert(k, m);
        assert(r[k] == m);
        assert forall|i: int, j: int| 0 <= i < j < r.len() implies (#[trigger] r[i]).priority <= (
        #[trigger] r[j]).priority by {
            if i < k && j < k {
                assert(s[i].priority <= s[j].priority);
            } else if i < k && j == k {
                assert(s[i].priority <= m.priority);
            } else if i < k && j > k {
                assert(s[i].priority <= s[j - 1].priority);
            } else if i == k {
                assert(s[j - 1].priority > m.priority);
            } else {
                assert(s[i - 1].priority <= s[j - 1].priority);
            }
        }
    }
}

/// Inserting a mock a second time changes nothing: the list holds it once.
pub proof fn lemma_insert_idempotent(s: Seq<MockView>, m: MockView)
    requires
        is_sorted(s),
    ensures
        insert_mock(insert_mock(s, m), m) == insert_mock(s, m),
        !s.contains(m) ==> insert_mock(s, m).len() == s.len() + 1,
        s.contains(m) ==> insert_mock(s, m) == s,
{
    lemma_insert_keeps_sorted(s, m);
    if !s.contains(m) {
        lemma_insert_position(s, m.priority);
    }
}

/// Whether two mocks are the same rule: the same matchers, the same
/// response, the same priority and the same limit.
pub open spec fn same_rule(a: MockView, b: MockView) -> bool {
    &&& a.matchers == b.matchers
    &&& a.response == b.response
    &&& a.priority == b.priority
    &&& a.limit == b.limit
}

/// A mock that is the same rule as a stored one, with as many matches
/// counted, is not stored again: the set keeps its length and its order.
pub proof fn lemma_same_rule_stored_once(s: Seq<MockView>, i: int, m: MockView)
    requires
        0 <= i < s.len(),
        same_rule(s[i], m),
        s[i].match_count == m.match_count,
    ensures
        insert_mock(s, m) == s,
{
    assert(s[i] == m);
}

/// `first_match` gives the first position at which a mock applies: no mock
/// before it applies, and there is none exactly when no mock applies.
pub proof fn lemma_first_match(s: Seq<MockView>, req: RequestView)
    ensures
        match first_match(s, req) {
            Some(i) => 0 <= i < s.len() && s[i].accepts(req) && forall|j: int|
                0 <= j < i ==> !(#[trigger] s[j]).accepts(req),
            None => forall|j: int| 0 <= j < s.len() ==> !(#[trigger] s[j]).accepts(req),
        },
    decreases s.len(),
{
    if s.len() == 0 {
    } else if s[0].accepts(req) {
    } else {
        let t = s.drop_first();
        lemma_first_match(t, req);
        match first_match(t, req) {
            Some(i) => {
                assert(s[i + 1] == t[i]);
                assert forall|j: int| 0 <= j < i + 1 implies !(#[trigger] s[j]).accepts(req) by {
                    if j > 0 {
                        assert(t[j - 1] == s[j]);
                    }
                }
            },
            None => {
                assert forall|j: int| 0 <= j < s.len() implies !(#[trigger] s[j]).accepts(req) by {
                    if j > 0 {
                        assert(t[j - 1] == s[j]);
                    }
                }
            },
        }
    }
}

/// In a sorted list the mock that is found has the least priority of all
/// mocks that apply, and stands before every other mock of that priority
/// that applies.
pub proof fn lemma_resolution_order(s: Seq<MockView>, req: RequestView, j: int)
    requires
        is_sorted(s),
        0 <= j < s.len(),
        s[j].accepts(req),
    ensures
        first_match(s, req) is Some,
        first_match(s, req)->Some_0 <= j,
        s[first_match(s, req)->Some_0].priority <= s[j].priority,
{
    lemma_first_match(s, req);
}

proof fn lemma_first_match_skip(s: Seq<MockView>, req: RequestView, i: int)
    requires
        0 <= i <= s.len(),
        forall|j: int| 0 <= j < i ==> !(#[trigger] s[j]).accepts(req),
    ensures
        first_match(s, req) == match first_match(s.subrange(i, s.len() as int), req) {
            Some(k) => Some(k + i),
            None => None,
        },
    decreases i,
{
    if i == 0 {
        assert(s.subrange(0, s.len() as int) =~= s);
    } else {
        lemma_first_match_skip(s, req, i - 1);
        let t = s.subrange(i - 1, s.len() as int);
        assert(t[0] == s[i - 1]);
        assert(t.drop_first() =~= s.subrange(i, s.len() as int));
    }
}

proof fn lemma_insert_position_skip(s: Seq<MockView>, p: u8, i: int)
    requires
        0 <= i <= s.len(),
        forall|j: int| 0 <= j < i ==> (#[trigger] s[j]).priority <= p,
    ensures
        insert_position(s, p) == i + insert_position(s.subrange(i, s.len() as int), p),
    decreases i,
{
    if i == 0 {
        assert(s.subrange(0, s.len() as int) =~= s);
    } else {
        lemma_insert_position_skip(s, p, i - 1);
        let t = s.subrange(i - 1, s.len() as int);
        assert(t[0] == s[i - 1]);
        assert(t.drop_first() =~= s.subrange(i, s.len() as int));
    }
}

/// The views of a list of mocks.
pub open spec fn mock_views(mocks: Seq<Mock>) -> Seq<MockView> {
    Seq::new(mocks.len(), |i: int| mocks[i]@)
}

/// The list of mocks after a mock is inserted: unchanged if it holds an
/// equal mock, else with the mock itself at its position.
pub open spec fn insert_entry(s: Seq<Mock>, m: Mock) -> Seq<Mock> {
    if mock_views(s).contains(m@) {
        s
    } else {
        s.insert(insert_position(mock_views(s), m@.priority), m)
    }
}

/// The list of mocks after inserting each of the given mocks in turn.
pub open spec fn insert_entries(s: Seq<Mock>, mocks: Seq<Mock>) -> Seq<Mock>
    decreases mocks.len(),
{
    if mocks.len() == 0 {
        s
    } else {
        insert_entry(insert_entries(s, mocks.drop_last()), mocks.last())
    }
}

/// Whether a mock is what is built from these conditions and this response
/// with this priority: the matchers in canonical form, the response itself
/// with its body in the frames that were given, no match counted, no limit.
pub open spec fn is_built(m: Mock, when: Seq<MatcherView>, then: Response, priority: u8) -> bool {
    &&& m.response == then
    &&& m@ == (MockView {
        matchers: crate::canonical::canonical(when),
        response: then@,
        priority,
        match_count: 0,
        limit: None,
    })
}

/// Whether two lists hold, position by position, mocks with the same
/// response and the same identifier.
pub open spec fn same_responses(a: Seq<Mock>, b: Seq<Mock>) -> bool {
    &&& a.len() == b.len()
    &&& forall|j: int|
        0 <= j < a.len() ==> (#[trigger] a[j]).response == b[j].response && a[j].id == b[j].id
}

/// A set of mocks.
#[derive(Debug)]
pub struct MockSet {
    mocks: Vec<Mock>,
}

impl View for MockSet {
    type V = Seq<MockView>;

    open spec fn view(&self) -> Seq<MockView> {
        mock_views(self.entries())
    }
}

impl MockSet {
    #[verifier::type_invariant]
    spec fn sorted(self) -> bool {
        is_sorted(mock_views(self.mocks@))
    }

    /// The mocks of the set, in the order in which they are tried.
    pub closed spec fn entries(&self) -> Seq<Mock> {
        self.mocks@
    }

    /// The invariant of the set: the mocks stand in ascending order of
    /// priority. It holds of every set at all times.
    pub open spec fn wf(&self) -> bool {
        is_sorted(self@)
    }

    /// Takes the mocks out of the set and leaves it empty.
    fn take(&mut self) -> (r: Vec<Mock>)
        ensures
            r@ == old(self).entries(),
            final(self).entries() == Seq::<Mock>::empty(),
    {
        let mut mocks: Vec<Mock> = Vec::new();
        assert(mock_views(mocks@) =~= Seq::<MockView>::empty());
        core::mem::swap(&mut self.mocks, &mut mocks);
        mocks
    }

    /// Puts sorted mocks in the place of those of the set.
    fn put(&mut self, mocks: Vec<Mock>)
        requires
            is_sorted(mock_views(mocks@)),
        ensures
            final(self).entries() == mocks@,
    {
        let mut mocks = mocks;
        core::mem::swap(&mut self.mocks, &mut mocks);
    }

    /// Creates an empty mockset.
    pub fn new() -> (r: MockSet)
        ensures
            r@ == Seq::<MockView>::empty(),
            r.wf(),
    {
        let r = MockSet { mocks: Vec::new() };
        assert(r@ =~= Seq::<MockView>::empty());
        r
    }

    /// Builds a mockset by inserting the mocks one by one.
    pub fn from_mocks(mocks: Vec<Mock>) -> (r: MockSet)
        ensures
            r.wf(),
            r@ == insert_each(Seq::<MockView>::empty(), mock_views(mocks@)),
            r.entries() == insert_entries(Seq::<Mock>::empty(), mocks@),
    {
        let ghost given = mocks@;
        let ghost all = mock_views(mocks@);
        let mut rest = mocks;
        let mut reversed: Vec<Mock> = Vec::new();
        while rest.len() > 0
            invariant
                given.len() == all.len(),
                rest@.len() + reversed@.len() == all.len(),
                rest@ == given.subrange(0, rest@.len() as int),
                mock_views(rest@) == all.subrange(0, rest@.len() as int),
                forall|k: int|
                    0 <= k < reversed@.len() ==> (#[trigger] reversed@[k]) == given[given.len() - 1
                        - k] && reversed@[k]@ == all[all.len() - 1 - k],
            decreases rest.len(),
        {
            let ghost before = mock_views(rest@);
            let ghost n = rest@.len() as int;
            match rest.pop() {
                Some(m) => {
                    assert(m@ == before[n - 1]);
                    assert(m == given[n - 1]);
                    assert(rest@ =~= given.subrange(0, n - 1));
                    assert(mock_views(rest@) =~= all.subrange(0, n - 1));
                    reversed.push(m);
                },
                None => {},
            }
        }
        let mut set = MockSet::new();
        assert(all.subrange(0, 0) =~= Seq::<MockView>::empty());
        assert(given.subrange(0, 0) =~= Seq::<Mock>::empty());
        assert(set.entries() =~= Seq::<Mock>::empty());
        while reversed.len() > 0
            invariant
                given.len() == all.len(),
                reversed@.len() <= all.len(),
                forall|k: int|
                    0 <= k < reversed@.len() ==> (#[trigger] reversed@[k]) == given[given.len() - 1
                        - k] && reversed@[k]@ == all[all.len() - 1 - k],
                set.wf(),
                set@ == insert_each(
                    Seq::<MockView>::empty(),
                    all.subrange(0, all.len() - reversed@.len()),
                ),
                set.entries() == insert_entries(
                    Seq::<Mock>::empty(),
                    given.subrange(0, given.len() - reversed@.len()),
                ),
            decreases reversed.len(),
        {
            let ghost done = all.len() - reversed@.len();
            match reversed.pop() {
                Some(m) => {
                    proof {
                        let next = all.subrange(0, done + 1);
                        assert(next.drop_last() =~= all.subrange(0, done));
                        assert(next.last() == m@);
                        let next_given = given.subrange(0, done + 1);
                        assert(next_given.drop_last() =~= given.subrange(0, done));
                        assert(next_given.last() == m);
                    }
                    set.insert(m);
                },
                None => {},
            }
        }
        assert(all.subrange(0, all.len() as int) =~= all);
        assert(given.subrange(0, given.len() as int) =~= given);
        set
    }

    /// Returns the number of mocks.
    pub fn len(&self) -> (r: usize)
        ensures
            r == self@.len(),
    {
        self.mocks.len()
    }

    /// Returns true if empty.
    pub fn is_empty(&self) -> (r: bool)
        ensures
            r == (self@.len() == 0),
    {
        self.mocks.len() == 0
    }

    /// Inserts a mock, unless an equal mock is there already. The mock goes
    /// behind the mocks of the same priority that are there, and before
    /// every mock of a greater priority.
    pub fn insert(&mut self, mock: Mock)
        ensures
            final(self).wf(),
            final(self)@ == insert_mock(old(self)@, mock@),
            final(self).entries() == insert_entry(old(self).entries(), mock),
    {
        proof {
            use_type_invariant(&*self);
            lemma_insert_keeps_sorted(self@, mock@);
        }
        if self.contains(&mock) {
            return ;
        }
        let ghost s = self@;
        let i = self.position_for(mock.priority);
        let ghost added = mock@;
        let mut mocks = self.take();
        mocks.insert(i, mock);
        assert(mock_views(mocks@) =~= s.insert(i as int, added));
        self.put(mocks);
    }

    /// Returns the position at which a mock of this priority is inserted.
    fn position_for(&self, priority: u8) -> (r: usize)
        ensures
            r <= self@.len(),
            r == insert_position(self@, priority),
    {
        let mut i: usize = 0;
        while i < self.mocks.len()
            invariant
                i <= self.mocks.len(),
                forall|j: int| 0 <= j < i ==> (#[trigger] self@[j]).priority <= priority,
            decreases self.mocks.len() - i,
        {
            if self.mocks[i].priority > priority {
                proof {
                    lemma_insert_position_skip(self@, priority, i as int);
                    assert(self@.subrange(i as int, self@.len() as int)[0] == self@[i as int]);
                }
                return i;
            }
            assert(self@[i as int].priority <= priority);
            i += 1;
        }
        proof {
            lemma_insert_position_skip(self@, priority, i as int);
        }
        i
    }

    /// Returns `true` if the mockset contains a mock equal to this one.
    pub fn contains(&self, mock: &Mock) -> (r: bool)
        ensures
            r == self@.contains(mock@),
    {
        let mut i: usize = 0;
        while i < self.mocks.len()
            invariant
                i <= self.mocks.len(),
                forall|j: int| 0 <= j < i ==> self@[j] != mock@,
            decreases self.mocks.len() - i,
        {
            if self.mocks[i].same_as(mock) {
                assert(self@[i as int] == mock@);
                return true;
            }
            i += 1;
        }
        false
    }

    /// Builds and inserts a mock.
    pub fn mock(&mut self, when: When, then: Then)
        ensures
            final(self).wf(),
            final(self)@ == insert_mock(
                old(self)@,
                MockView {
                    matchers: crate::canonical::canonical(when@),
                    response: then@,
                    priority: crate::mock::DEFAULT_PRIORITY,
                    match_count: 0,
                    limit: None,
                },
            ),
            exists|m: Mock|
                #![trigger is_built(m, when@, then.response, crate::mock::DEFAULT_PRIORITY)]
                is_built(m, when@, then.response, crate::mock::DEFAULT_PRIORITY)
                    && final(self).entries() == insert_entry(old(self).entries(), m),
    {
        let mock = Mock::new(when, then);
        let ghost built = mock;
        self.insert(mock);
        assert(is_built(built, when@, then.response, crate::mock::DEFAULT_PRIORITY));
    }

    /// Builds and inserts a mock with explicit priority.
    pub fn mock_with_priority(&mut self, priority: u8, when: When, then: Then)
        ensures
            final(self).wf(),
            final(self)@ == insert_mock(
                old(self)@,
                MockView {
                    matchers: crate::canonical::canonical(when@),
                    response: then@,
                    priority,
                    match_count: 0,
                    limit: None,
                },
            ),
            exists|m: Mock|
                #![trigger is_built(m, when@, then.response, priority)]
                is_built(m, when@, then.response, priority)
                    && final(self).entries() == insert_entry(old(self).entries(), m),
    {
        let mock = Mock::new(when, then).with_priority(priority);
        let ghost built = mock;
        self.insert(mock);
        assert(is_built(built, when@, then.response, priority));
    }

    /// Finds the first mock, in the order of the set, that applies to the
    /// request. Nothing is counted.
    pub fn find(&self, request: &Request) -> (r: Option<&Mock>)
        ensures
            match first_match(self@, request@) {
                Some(i) => r == Some(&self.entries()[i]),
                None => r is None,
            },
    {
        let mut i: usize = 0;
        while i < self.mocks.len()
            invariant
                i <= self.mocks.len(),
                forall|j: int| 0 <= j < i ==> !(#[trigger] self@[j]).accepts(request@),
            decreases self.mocks.len() - i,
        {
            if self.mocks[i].accepts(request) {
                proof {
                    lemma_first_match_skip(self@, request@, i as int);
                    assert(self@.subrange(i as int, self@.len() as int)[0] == self@[i as int]);
                }
                return Some(&self.mocks[i]);
            }
            i += 1;
        }
        proof {
            lemma_first_match_skip(self@, request@, i as int);
        }
        None
    }

    /// Removes a mock by index.
    pub fn remove(&mut self, index: usize) -> (r: Mock)
        requires
            index < old(self)@.len(),
        ensures
            final(self).wf(),
            r == old(self).entries()[index as int],
            final(self).entries() == old(self).entries().remove(index as int),
    {
        proof {
            use_type_invariant(&*self);
        }
        let ghost s = self@;
        let mut mocks = self.take();
        let r = mocks.remove(index);
        proof {
            let t = mock_views(mocks@);
            assert(t =~= s.remove(index as int));
            assert forall|i: int, j: int| 0 <= i < j < t.len() implies (#[trigger] t[i]).priority
                <= (#[trigger] t[j]).priority by {
                let a = if i < index { i } else { i + 1 };
                let b = if j < index { j } else { j + 1 };
                assert(s[a].priority <= s[b].priority);
            }
        }
        self.put(mocks);
        r
    }

    /// Clears the mockset.
    pub fn clear(&mut self)
        ensures
            final(self).wf(),
            final(self)@ == Seq::<MockView>::empty(),
            old(self)@.len() == 0 ==> final(self)@ == old(self)@,
    {
        let _ = self.take();
        assert(self@ =~= Seq::<MockView>::empty());
        assert(old(self)@.len() == 0 ==> old(self)@ =~= self@);
    }

    /// Returns the mocks in the order in which they are tried.
    pub fn iter(&self) -> (r: &Vec<Mock>)
        ensures
            r@ == self.entries(),
    {
        &self.mocks
    }

    /// Matches a request to a mock response: the response of the first mock
    /// that applies, whose match is counted. `None` says that no mock
    /// applies, and then nothing has changed.
    pub fn match_to_response(&mut self, request: &Request) -> (r: Option<Response>)
        ensures
            final(self).wf(),
            match first_match(old(self)@, request@) {
                Some(i) => {
                    &&& r is Some
                    &&& r->Some_0@ == old(self)@[i].response
                    &&& r->Some_0.frames() == old(self).entries()[i].response.frames()
                    &&& final(self)@ == old(self)@.update(i, old(self)@[i].counted())
                },
                None => r is None && final(self)@ == old(self)@,
            },
            same_responses(final(self).entries(), old(self).entries()),
    {
        proof {
            use_type_invariant(&*self);
        }
        let ghost s = self@;
        let ghost olds = self.entries();
        let n = self.mocks.len();
        let mut i: usize = 0;
        while i < n
            invariant
                i <= n,
                n == self.mocks@.len(),
                s == self@,
                s == old(self)@,
                olds == self.entries(),
                olds == old(self).entries(),
                is_sorted(s),
                forall|j: int| 0 <= j < i ==> !(#[trigger] s[j]).accepts(request@),
            decreases n - i,
        {
            if self.mocks[i].accepts(request) {
                proof {
                    lemma_first_match_skip(s, request@, i as int);
                    assert(s.subrange(i as int, s.len() as int)[0] == s[i as int]);
                }
                let mut mocks = self.take();
                let mut hit = mocks.remove(i);
                hit.matches(request);
                let response = hit.response.duplicate();
                let ghost counted = hit@;
                let ghost hit_mock = hit;
                mocks.insert(i, hit);
                proof {
                    assert(mocks@ =~= olds.update(i as int, hit_mock));
                    assert(mock_views(mocks@) =~= s.update(i as int, counted));
                    let t = mock_views(mocks@);
                    assert forall|a: int, b: int| 0 <= a < b < t.len() implies (
                    #[trigger] t[a]).priority <= (#[trigger] t[b]).priority by {
                        assert(s[a].priority <= s[b].priority);
                    }
                }
                self.put(mocks);
                return Some(response);
            }
            i += 1;
        }
        proof {
            lemma_first_match_skip(s, request@, i as int);
        }
        None
    }
}

/// The list after inserting each of the given mocks in turn.
pub open spec fn insert_each(s: Seq<MockView>, mocks: Seq<MockView>) -> Seq<MockView>
    decreases mocks.len(),
{
    if mocks.len() == 0 {
        s
    } else {
        insert_mock(insert_each(s, mocks.drop_last()), mocks.last())
    }
}

impl Default for MockSet {
    fn default() -> (r: MockSet)
        ensures
            r@ == Seq::<MockView>::empty(),
            r.wf(),
    {
        MockSet::new()
    }
}

} // verus!
