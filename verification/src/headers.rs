//! Headers
use crate::text::{ascii_lower, is_lower, lemma_ascii_lower_idempotent, str_eq, to_ascii_lowercase};
use vstd::prelude::*;
use vstd::string::StringExecFns;

verus! {

/// A header as a pair of texts: the canonical name and the value.
pub type HeaderPair = (Seq<char>, Seq<char>);

/// Whether some header in the list has the given canonical name.
pub open spec fn has_name(s: Seq<HeaderPair>, name: Seq<char>) -> bool {
    exists|i: int| 0 <= i < s.len() && (#[trigger] s[i]).0 == name
}

/// The value of the first header with the given canonical name.
pub open spec fn lookup(s: Seq<HeaderPair>, name: Seq<char>) -> Option<Seq<char>>
    decreases s.len(),
{
    if s.len() == 0 {
        None
    } else if s[0].0 == name {
        Some(s[0].1)
    } else {
        lookup(s.drop_first(), name)
    }
}

/// The list without the headers that have the given canonical name.
pub open spec fn without_name(s: Seq<HeaderPair>, name: Seq<char>) -> Seq<HeaderPair> {
    s.filter(|e: HeaderPair| e.0 != name)
}

/// Whether every header of `a` occurs in `b`.
pub open spec fn is_sublist(a: Seq<HeaderPair>, b: Seq<HeaderPair>) -> bool {
    forall|i: int| 0 <= i < a.len() ==> b.contains(#[trigger] a[i])
}

/// Represents a header name. Names compare without regard to ASCII case:
/// a name is held in lower case.
#[derive(Debug)]
pub struct HeaderName {
    text: String,
}

impl View for HeaderName {
    type V = Seq<char>;

    closed spec fn view(&self) -> Seq<char> {
        self.text@
    }
}

impl HeaderName {
    #[verifier::type_invariant]
    spec fn canonical(self) -> bool {
        is_lower(self.text@)
    }

    /// Builds a name from a text, in any case.
    pub fn new(name: &str) -> (r: HeaderName)
        ensures
            r@ == ascii_lower(name@),
    {
        let text = to_ascii_lowercase(name);
        proof {
            lemma_ascii_lower_idempotent(name@);
        }
        HeaderName { text }
    }

    /// Returns the name, in lower case.
    pub fn as_str(&self) -> (r: &str)
        ensures
            r@ == self@,
            is_lower(r@),
    {
        proof {
            use_type_invariant(self);
        }
        self.text.as_str()
    }

    /// Returns a copy of the name.
    pub fn duplicate(&self) -> (r: HeaderName)
        ensures
            r@ == self@,
    {
        proof {
            use_type_invariant(self);
        }
        HeaderName { text: self.text.clone() }
    }
}

/// Represents a header value.
#[derive(Debug)]
pub struct HeaderValue {
    text: String,
}

impl View for HeaderValue {
    type V = Seq<char>;

    closed spec fn view(&self) -> Seq<char> {
        self.text@
    }
}

impl HeaderValue {
    /// Builds a value from a text.
    pub fn new(value: &str) -> (r: HeaderValue)
        ensures
            r@ == value@,
    {
        HeaderValue { text: String::from_str(value) }
    }

    /// Returns the value.
    pub fn as_str(&self) -> (r: &str)
        ensures
            r@ == self@,
    {
        self.text.as_str()
    }

    /// Returns a copy of the value.
    pub fn duplicate(&self) -> (r: HeaderValue)
        ensures
            r@ == self@,
    {
        HeaderValue { text: self.text.clone() }
    }
}

/// Represents headers: a list of name and value pairs in insertion order.
#[derive(Debug)]
pub struct Headers {
    entries: Vec<(HeaderName, HeaderValue)>,
}

/// The pairs of texts that a list of entries stands for.
pub closed spec fn pairs_of(entries: Seq<(HeaderName, HeaderValue)>) -> Seq<HeaderPair> {
    Seq::new(entries.len(), |i: int| (entries[i].0@, entries[i].1@))
}

impl View for Headers {
    type V = Seq<HeaderPair>;

    closed spec fn view(&self) -> Seq<HeaderPair> {
        pairs_of(self.entries@)
    }
}

proof fn lemma_lookup_skip(s: Seq<HeaderPair>, name: Seq<char>, i: int)
    requires
        0 <= i <= s.len(),
        forall|j: int| 0 <= j < i ==> (#[trigger] s[j]).0 != name,
    ensures
        lookup(s, name) == lookup(s.subrange(i, s.len() as int), name),
    decreases i,
{
    if i == 0 {
        assert(s.subrange(0, s.len() as int) =~= s);
    } else {
        lemma_lookup_skip(s, name, i - 1);
        let t = s.subrange(i - 1, s.len() as int);
        assert(t[0] == s[i - 1]);
        assert(t.drop_first() =~= s.subrange(i, s.len() as int));
    }
}

/// `lookup` finds a value exactly when some header has the name.
pub proof fn lemma_lookup_some_iff_has_name(s: Seq<HeaderPair>, name: Seq<char>)
    ensures
        lookup(s, name) is Some <==> has_name(s, name),
    decreases s.len(),
{
    if s.len() == 0 {
    } else if s[0].0 == name {
        assert(has_name(s, name));
    } else {
        let t = s.drop_first();
        lemma_lookup_some_iff_has_name(t, name);
        if has_name(t, name) {
            let i = choose|i: int| 0 <= i < t.len() && (#[trigger] t[i]).0 == name;
            assert(s[i + 1] == t[i]);
        }
        if has_name(s, name) {
            let i = choose|i: int| 0 <= i < s.len() && (#[trigger] s[i]).0 == name;
            assert(t[i - 1] == s[i]);
        }
    }
}

impl Headers {
    /// Creates an empty headers.
    pub fn new() -> (r: Headers)
        ensures
            r@ == Seq::<HeaderPair>::empty(),
    {
        let r = Headers { entries: Vec::new() };
        assert(r@ =~= Seq::<HeaderPair>::empty());
        r
    }

    /// Builds headers from pairs of name and value, in order, leaving out a
    /// pair that an earlier one repeats.
    pub fn from_pairs(pairs: &Vec<(String, String)>) -> (r: Headers)
        ensures
            r@ == insert_all(Seq::<HeaderPair>::empty(), text_pairs(pairs@)),
    {
        let mut r = Headers::new();
        let mut i: usize = 0;
        while i < pairs.len()
            invariant
                i <= pairs.len(),
                r@ == insert_all(Seq::<HeaderPair>::empty(), text_pairs(pairs@).subrange(0, i as int)),
            decreases pairs.len() - i,
        {
            let ghost before = text_pairs(pairs@).subrange(0, i as int);
            let ghost after = text_pairs(pairs@).subrange(0, i as int + 1);
            r.insert(pairs[i].0.as_str(), pairs[i].1.as_str());
            proof {
                assert(after.drop_last() =~= before);
                assert(after.last() == (pairs@[i as int].0@, pairs@[i as int].1@));
            }
            i += 1;
        }
        assert(text_pairs(pairs@).subrange(0, i as int) =~= text_pairs(pairs@));
        r
    }

    /// Returns the number of headers.
    pub fn len(&self) -> (r: usize)
        ensures
            r == self@.len(),
    {
        self.entries.len()
    }

    /// Returns true if empty.
    pub fn is_empty(&self) -> (r: bool)
        ensures
            r == (self@.len() == 0),
    {
        self.entries.len() == 0
    }

    /// Inserts a header, unless the same name and value are already there.
    pub fn insert(&mut self, name: &str, value: &str)
        ensures
            final(self)@ == insert_pair(old(self)@, (name@, value@)),
    {
        if !self.contains(name, value) {
            let n = HeaderName::new(name);
            let v = HeaderValue::new(value);
            let ghost before = self@;
            self.entries.push((n, v));
            assert(self@ =~= before.push((ascii_lower(name@), value@)));
        }
    }

    /// Gets the value of the first header with this name.
    pub fn get(&self, name: &str) -> (r: Option<&HeaderValue>)
        ensures
            r is Some <==> lookup(self@, ascii_lower(name@)) is Some,
            r is Some ==> lookup(self@, ascii_lower(name@)) == Some(r->Some_0@),
    {
        let key = to_ascii_lowercase(name);
        let mut i: usize = 0;
        while i < self.entries.len()
            invariant
                i <= self.entries.len(),
                key@ == ascii_lower(name@),
                forall|j: int| 0 <= j < i ==> (#[trigger] self@[j]).0 != key@,
            decreases self.entries.len() - i,
        {
            if str_eq(self.entries[i].0.as_str(), key.as_str()) {
                proof {
                    lemma_lookup_skip(self@, key@, i as int);
                    assert(self@.subrange(i as int, self@.len() as int)[0] == self@[i as int]);
                }
                return Some(&self.entries[i].1);
            }
            i += 1;
        }
        proof {
            lemma_lookup_skip(self@, key@, i as int);
        }
        None
    }

    /// Removes the headers with this name.
    pub fn remove(&mut self, name: &str)
        ensures
            final(self)@ == without_name(old(self)@, ascii_lower(name@)),
    {
        let key = to_ascii_lowercase(name);
        let mut kept: Vec<(HeaderName, HeaderValue)> = Vec::new();
        let mut i: usize = 0;
        while i < self.entries.len()
            invariant
                i <= self.entries.len(),
                key@ == ascii_lower(name@),
                pairs_of(kept@) == without_name(self@.subrange(0, i as int), key@),
            decreases self.entries.len() - i,
        {
            let ghost before = self@.subrange(0, i as int);
            let ghost after = self@.subrange(0, i as int + 1);
            let ghost kept_before = pairs_of(kept@);
            proof {
                assert(after.drop_last() =~= before);
                assert(after.last() == self@[i as int]);
                reveal(Seq::filter);
            }
            if !str_eq(self.entries[i].0.as_str(), key.as_str()) {
                kept.push((self.entries[i].0.duplicate(), self.entries[i].1.duplicate()));
                assert(pairs_of(kept@) =~= kept_before.push(self@[i as int]));
            }
            i += 1;
        }
        assert(self@.subrange(0, i as int) =~= self@);
        self.entries = kept;
    }

    /// Clears the headers.
    pub fn clear(&mut self)
        ensures
            final(self)@ == Seq::<HeaderPair>::empty(),
    {
        self.entries.clear();
        assert(self@ =~= Seq::<HeaderPair>::empty());
    }

    /// Returns true if the headers contains a header with this name.
    pub fn contains_name(&self, name: &str) -> (r: bool)
        ensures
            r == has_name(self@, ascii_lower(name@)),
    {
        let key = to_ascii_lowercase(name);
        let mut i: usize = 0;
        while i < self.entries.len()
            invariant
                i <= self.entries.len(),
                key@ == ascii_lower(name@),
                forall|j: int| 0 <= j < i ==> (#[trigger] self@[j]).0 != key@,
            decreases self.entries.len() - i,
        {
            if str_eq(self.entries[i].0.as_str(), key.as_str()) {
                assert(self@[i as int].0 == key@);
                return true;
            }
            i += 1;
        }
        false
    }

    /// Returns true if the headers contains the header.
    pub fn contains(&self, name: &str, value: &str) -> (r: bool)
        ensures
            r == self@.contains((ascii_lower(name@), value@)),
    {
        let key = to_ascii_lowercase(name);
        self.contains_pair(key.as_str(), value)
    }

    /// Returns true if the headers contains the header whose name is given
    /// in canonical form.
    fn contains_pair(&self, key: &str, value: &str) -> (r: bool)
        ensures
            r == self@.contains((key@, value@)),
    {
        let mut i: usize = 0;
        while i < self.entries.len()
            invariant
                i <= self.entries.len(),
                forall|j: int| 0 <= j < i ==> self@[j] != (key@, value@),
            decreases self.entries.len() - i,
        {
            if str_eq(self.entries[i].0.as_str(), key) && str_eq(
                self.entries[i].1.as_str(),
                value,
            ) {
                assert(self@[i as int] == (key@, value@));
                return true;
            }
            i += 1;
        }
        false
    }

    /// Returns true if the headers are a subset of another,
    /// i.e., other contains at least all the values in self.
    pub fn is_subset(&self, other: &Headers) -> (r: bool)
        ensures
            r == is_sublist(self@, other@),
    {
        let mut i: usize = 0;
        while i < self.entries.len()
            invariant
                i <= self.entries.len(),
                forall|j: int| 0 <= j < i ==> other@.contains(#[trigger] self@[j]),
            decreases self.entries.len() - i,
        {
            if !other.contains_pair(self.entries[i].0.as_str(), self.entries[i].1.as_str()) {
                assert(!other@.contains(self@[i as int]));
                return false;
            }
            i += 1;
        }
        true
    }

    /// Returns true if the headers are a superset of another,
    /// i.e., self contains at least all the values in other.
    pub fn is_superset(&self, other: &Headers) -> (r: bool)
        ensures
            r == is_sublist(other@, self@),
    {
        other.is_subset(self)
    }

    /// Returns the headers in insertion order.
    pub fn iter(&self) -> (r: &Vec<(HeaderName, HeaderValue)>)
        ensures
            pairs_of(r@) == self@,
    {
        &self.entries
    }

    /// Returns the name and value at a position.
    pub fn entry(&self, index: usize) -> (r: (&str, &str))
        requires
            index < self@.len(),
        ensures
            r.0@ == self@[index as int].0,
            r.1@ == self@[index as int].1,
            is_lower(r.0@),
    {
        (self.entries[index].0.as_str(), self.entries[index].1.as_str())
    }

    /// Returns a copy of the headers.
    pub fn duplicate(&self) -> (r: Headers)
        ensures
            r@ == self@,
    {
        let mut entries: Vec<(HeaderName, HeaderValue)> = Vec::new();
        let mut i: usize = 0;
        while i < self.entries.len()
            invariant
                i <= self.entries.len(),
                pairs_of(entries@) == self@.subrange(0, i as int),
            decreases self.entries.len() - i,
        {
            let ghost before = pairs_of(entries@);
            entries.push((self.entries[i].0.duplicate(), self.entries[i].1.duplicate()));
            assert(pairs_of(entries@) =~= before.push(self@[i as int]));
            assert(before.push(self@[i as int]) =~= self@.subrange(0, i as int + 1));
            i += 1;
        }
        assert(self@.subrange(0, i as int) =~= self@);
        Headers { entries }
    }

    /// Returns true if both hold the same headers in the same order.
    pub fn same_as(&self, other: &Headers) -> (r: bool)
        ensures
            r == (self@ == other@),
    {
        if self.entries.len() != other.entries.len() {
            assert(self@.len() != other@.len());
            return false;
        }
        let mut i: usize = 0;
        while i < self.entries.len()
            invariant
                i <= self.entries.len(),
                self.entries.len() == other.entries.len(),
                forall|j: int| 0 <= j < i ==> self@[j] == other@[j],
            decreases self.entries.len() - i,
        {
            if !(str_eq(self.entries[i].0.as_str(), other.entries[i].0.as_str()) && str_eq(
                self.entries[i].1.as_str(),
                other.entries[i].1.as_str(),
            )) {
                assert(self@[i as int] != other@[i as int]);
                return false;
            }
            i += 1;
        }
        assert(self@ =~= other@);
        true
    }
}

/// The list after inserting a header given with its name in any case: the
/// pair with the canonical name is appended unless it is already there.
pub open spec fn insert_pair(s: Seq<HeaderPair>, raw: HeaderPair) -> Seq<HeaderPair> {
    let pair = (ascii_lower(raw.0), raw.1);
    if s.contains(pair) {
        s
    } else {
        s.push(pair)
    }
}

/// The list after inserting each of the given headers in turn.
pub open spec fn insert_all(s: Seq<HeaderPair>, raws: Seq<HeaderPair>) -> Seq<HeaderPair>
    decreases raws.len(),
{
    if raws.len() == 0 {
        s
    } else {
        insert_pair(insert_all(s, raws.drop_last()), raws.last())
    }
}

/// The pairs of texts that a list of string pairs stands for.
pub open spec fn text_pairs(pairs: Seq<(String, String)>) -> Seq<HeaderPair> {
    Seq::new(pairs.len(), |i: int| (pairs[i].0@, pairs[i].1@))
}

impl Default for Headers {
    fn default() -> (r: Headers)
        ensures
            r@ == Seq::<HeaderPair>::empty(),
    {
        Headers::new()
    }
}

impl Clone for Headers {
    fn clone(&self) -> (r: Headers)
        ensures
            r@ == self@,
    {
        self.duplicate()
    }
}

impl PartialEq for Headers {
    fn eq(&self, other: &Headers) -> (r: bool) {
        self.same_as(other)
    }
}

impl vstd::std_specs::cmp::PartialEqSpecImpl for Headers {
    open spec fn obeys_eq_spec() -> bool {
        true
    }

    open spec fn eq_spec(&self, other: &Headers) -> bool {
        self@ == other@
    }
}

/// Every list of headers is a subset of itself.
pub proof fn lemma_sublist_reflexive(a: Seq<HeaderPair>)
    ensures
        is_sublist(a, a),
{
}

/// The subset relation is transitive.
pub proof fn lemma_sublist_transitive(a: Seq<HeaderPair>, b: Seq<HeaderPair>, c: Seq<HeaderPair>)
    requires
        is_sublist(a, b),
        is_sublist(b, c),
    ensures
        is_sublist(a, c),
{
    assert forall|i: int| 0 <= i < a.len() implies c.contains(#[trigger] a[i]) by {
        assert(b.contains(a[i]));
        let j = choose|j: int| 0 <= j < b.len() && b[j] == a[i];
        assert(c.contains(b[j]));
    }
}

/// After a header is inserted, the headers contain it, whatever the case
/// of the name that was given.
pub proof fn lemma_insert_then_contains(s: Seq<HeaderPair>, raw: HeaderPair)
    ensures
        insert_pair(s, raw).contains((ascii_lower(raw.0), raw.1)),
        has_name(insert_pair(s, raw), ascii_lower(raw.0)),
{
    let pair = (ascii_lower(raw.0), raw.1);
    let t = insert_pair(s, raw);
    if s.contains(pair) {
    } else {
        assert(t[s.len() as int] == pair);
    }
    let i = choose|i: int| 0 <= i < t.len() && t[i] == pair;
    assert(t[i].0 == ascii_lower(raw.0));
}

/// Inserting the same header twice is the same as inserting it once.
pub proof fn lemma_insert_idempotent(s: Seq<HeaderPair>, raw: HeaderPair)
    ensures
        insert_pair(insert_pair(s, raw), raw) == insert_pair(s, raw),
{
    lemma_insert_then_contains(s, raw);
}

} // verus!
