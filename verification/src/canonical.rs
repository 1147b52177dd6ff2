//! The canonical form of a set of matchers: sorted by sort key, without
//! duplicates. Two lists with the same matchers have the same canonical
//! form, in whatever order the matchers were given.
use crate::matchers::{views_of, Matcher, MatcherView};
use crate::sort_key::{lemma_lt_asymmetric, lemma_lt_irreflexive, lemma_lt_total, lemma_lt_transitive};
use vstd::prelude::*;

verus! {

/// Whether a list of matchers is strictly increasing, and so holds no
/// matcher twice.
pub open spec fn is_canonical(s: Seq<MatcherView>) -> bool {
    forall|i: int, j: int| 0 <= i < j < s.len() ==> (#[trigger] s[i]).lt(#[trigger] s[j])
}

/// The sorted list with one more matcher in its place; the list itself if
/// it holds the matcher already.
pub open spec fn insert_sorted(s: Seq<MatcherView>, x: MatcherView) -> Seq<MatcherView>
    decreases s.len(),
{
    if s.len() == 0 {
        seq![x]
    } else if x.lt(s[0]) {
        seq![x] + s
    } else if x == s[0] {
        s
    } else {
        seq![s[0]] + insert_sorted(s.drop_first(), x)
    }
}

/// The canonical form of a list of matchers.
pub open spec fn canonical(s: Seq<MatcherView>) -> Seq<MatcherView>
    decreases s.len(),
{
    if s.len() == 0 {
        Seq::empty()
    } else {
        insert_sorted(canonical(s.drop_first()), s[0])
    }
}

/// Whether two lists hold the same matchers, in any order and any number.
pub open spec fn same_members(a: Seq<MatcherView>, b: Seq<MatcherView>) -> bool {
    forall|x: MatcherView| a.contains(x) <==> b.contains(x)
}

/// Inserting keeps the members and adds the new one.
pub proof fn lemma_insert_members(s: Seq<MatcherView>, x: MatcherView)
    ensures
        forall|y: MatcherView| insert_sorted(s, x).contains(y) <==> (s.contains(y) || y == x),
    decreases s.len(),
{
    let r = insert_sorted(s, x);
    if s.len() == 0 {
        assert(r[0] == x);
        assert forall|y: MatcherView| r.contains(y) <==> (s.contains(y) || y == x) by {}
    } else if x.lt(s[0]) {
        assert forall|y: MatcherView| r.contains(y) <==> (s.contains(y) || y == x) by {
            if s.contains(y) {
                let i = choose|i: int| 0 <= i < s.len() && s[i] == y;
                assert(r[i + 1] == y);
            }
            if y == x {
                assert(r[0] == y);
            }
            if r.contains(y) {
                let i = choose|i: int| 0 <= i < r.len() && r[i] == y;
                if i > 0 {
                    assert(s[i - 1] == y);
                }
            }
        }
    } else if x == s[0] {
        assert forall|y: MatcherView| r.contains(y) <==> (s.contains(y) || y == x) by {
            if y == x {
                assert(s[0] == y);
            }
        }
    } else {
        let t = s.drop_first();
        let u = insert_sorted(t, x);
        lemma_insert_members(t, x);
        assert forall|y: MatcherView| r.contains(y) <==> (s.contains(y) || y == x) by {
            assert(u.contains(y) <==> (t.contains(y) || y == x));
            if r.contains(y) {
                let i = choose|i: int| 0 <= i < r.len() && r[i] == y;
                if i == 0 {
                    assert(s[0] == y);
                } else {
                    assert(u[i - 1] == y);
                    assert(u.contains(y));
                    if t.contains(y) {
                        let k = choose|k: int| 0 <= k < t.len() && t[k] == y;
                        assert(s[k + 1] == y);
                    }
                }
            }
            if s.contains(y) {
                let i = choose|i: int| 0 <= i < s.len() && s[i] == y;
                if i == 0 {
                    assert(r[0] == y);
                } else {
                    assert(t[i - 1] == y);
                    assert(u.contains(y));
                    let k = choose|k: int| 0 <= k < u.len() && u[k] == y;
                    assert(r[k + 1] == y);
                }
            }
            if y == x {
                assert(u.contains(y));
                let k = choose|k: int| 0 <= k < u.len() && u[k] == y;
                assert(r[k + 1] == y);
            }
        }
    }
}

/// Inserting into a canonical list gives a canonical list.
pub proof fn lemma_insert_canonical(s: Seq<MatcherView>, x: MatcherView)
    requires
        is_canonical(s),
    ensures
        is_canonical(insert_sorted(s, x)),
    decreases s.len(),
{
    let r = insert_sorted(s, x);
    if s.len() == 0 {
    } else if x.lt(s[0]) {
        assert forall|i: int, j: int| 0 <= i < j < r.len() implies (#[trigger] r[i]).lt(
            #[trigger] r[j],
        ) by {
            if i == 0 {
                if j > 1 {
                    assert(s[0].lt(s[j - 1]));
                    lemma_lt_transitive(x, s[0], s[j - 1]);
                }
            } else {
                assert(s[i - 1].lt(s[j - 1]));
            }
        }
    } else if x == s[0] {
    } else {
        let t = s.drop_first();
        let u = insert_sorted(t, x);
        assert(is_canonical(t)) by {
            assert forall|i: int, j: int| 0 <= i < j < t.len() implies (#[trigger] t[i]).lt(
                #[trigger] t[j],
            ) by {
                assert(s[i + 1].lt(s[j + 1]));
            }
        }
        lemma_insert_canonical(t, x);
        lemma_insert_members(t, x);
        lemma_lt_total(x, s[0]);
        assert forall|i: int, j: int| 0 <= i < j < r.len() implies (#[trigger] r[i]).lt(
            #[trigger] r[j],
        ) by {
            if i == 0 {
                let y = u[j - 1];
                assert(u.contains(y));
                if t.contains(y) {
                    let k = choose|k: int| 0 <= k < t.len() && t[k] == y;
                    assert(s[0].lt(s[k + 1]));
                }
            } else {
                assert(u[i - 1].lt(u[j - 1]));
            }
        }
    }
}

/// The canonical form of a list is canonical and holds the list's matchers,
/// no more and no fewer.
pub proof fn lemma_canonical_form(s: Seq<MatcherView>)
    ensures
        is_canonical(canonical(s)),
        same_members(canonical(s), s),
    decreases s.len(),
{
    if s.len() == 0 {
    } else {
        let t = s.drop_first();
        lemma_canonical_form(t);
        lemma_insert_canonical(canonical(t), s[0]);
        lemma_insert_members(canonical(t), s[0]);
        assert forall|x: MatcherView| canonical(s).contains(x) <==> s.contains(x) by {
            if t.contains(x) {
                let k = choose|k: int| 0 <= k < t.len() && t[k] == x;
                assert(s[k + 1] == x);
            }
            if s.contains(x) {
                let k = choose|k: int| 0 <= k < s.len() && s[k] == x;
                if k > 0 {
                    assert(t[k - 1] == x);
                }
            }
        }
    }
}

/// Two canonical lists with the same matchers are the same list.
pub proof fn lemma_canonical_unique(a: Seq<MatcherView>, b: Seq<MatcherView>)
    requires
        is_canonical(a),
        is_canonical(b),
        same_members(a, b),
    ensures
        a == b,
    decreases a.len(),
{
    if a.len() == 0 {
        if b.len() > 0 {
            assert(b.contains(b[0]));
        }
        assert(a =~= b);
    } else {
        assert(a.contains(a[0]));
        assert(b.contains(a[0]));
        assert(b.len() > 0);
        assert(b.contains(b[0]));
        assert(a.contains(b[0]));
        let i = choose|i: int| 0 <= i < b.len() && b[i] == a[0];
        let j = choose|j: int| 0 <= j < a.len() && a[j] == b[0];
        if i > 0 && j > 0 {
            assert(b[0].lt(b[i]));
            assert(a[0].lt(a[j]));
            lemma_lt_asymmetric(a[0], b[0]);
        }
        if i > 0 && j == 0 {
            assert(b[0].lt(b[i]));
            lemma_lt_irreflexive(a[0]);
        }
        if i == 0 && j > 0 {
            assert(a[0].lt(a[j]));
            lemma_lt_irreflexive(a[0]);
        }
        assert(a[0] == b[0]);
        let ta = a.drop_first();
        let tb = b.drop_first();
        assert forall|p: int, q: int| 0 <= p < q < ta.len() implies (#[trigger] ta[p]).lt(
            #[trigger] ta[q],
        ) by {
            assert(a[p + 1].lt(a[q + 1]));
        }
        assert forall|p: int, q: int| 0 <= p < q < tb.len() implies (#[trigger] tb[p]).lt(
            #[trigger] tb[q],
        ) by {
            assert(b[p + 1].lt(b[q + 1]));
        }
        assert forall|x: MatcherView| ta.contains(x) <==> tb.contains(x) by {
            lemma_lt_irreflexive(x);
            if ta.contains(x) {
                let k = choose|k: int| 0 <= k < ta.len() && ta[k] == x;
                assert(a[k + 1] == x);
                assert(a[0].lt(a[k + 1]));
                assert(a.contains(x));
                assert(b.contains(x));
                let m = choose|m: int| 0 <= m < b.len() && b[m] == x;
                assert(m > 0);
                assert(tb[m - 1] == x);
            }
            if tb.contains(x) {
                let k = choose|k: int| 0 <= k < tb.len() && tb[k] == x;
                assert(b[k + 1] == x);
                assert(b[0].lt(b[k + 1]));
                assert(b.contains(x));
                assert(a.contains(x));
                let m = choose|m: int| 0 <= m < a.len() && a[m] == x;
                assert(m > 0);
                assert(ta[m - 1] == x);
            }
        }
        lemma_canonical_unique(ta, tb);
        assert(a =~= seq![a[0]] + ta);
        assert(b =~= seq![b[0]] + tb);
    }
}

/// Lists that hold the same matchers have the same canonical form.
pub proof fn lemma_canonical_of_same_members(a: Seq<MatcherView>, b: Seq<MatcherView>)
    requires
        same_members(a, b),
    ensures
        canonical(a) == canonical(b),
{
    lemma_canonical_form(a);
    lemma_canonical_form(b);
    lemma_canonical_unique(canonical(a), canonical(b));
}

/// The canonical form does not depend on the order in which the matchers
/// were given: two lists that are rearrangements of each other have the
/// same canonical form.
pub proof fn lemma_canonical_ignores_order(a: Seq<MatcherView>, b: Seq<MatcherView>)
    requires
        a.to_multiset() == b.to_multiset(),
    ensures
        canonical(a) == canonical(b),
{
    a.to_multiset_ensures();
    b.to_multiset_ensures();
    assert forall|x: MatcherView| a.contains(x) <==> b.contains(x) by {
        assert(a.contains(x) <==> a.to_multiset().count(x) > 0);
        assert(b.contains(x) <==> b.to_multiset().count(x) > 0);
    }
    lemma_canonical_of_same_members(a, b);
}

/// A canonical list is its own canonical form.
pub proof fn lemma_canonical_idempotent(s: Seq<MatcherView>)
    ensures
        canonical(canonical(s)) == canonical(s),
{
    lemma_canonical_form(s);
    lemma_canonical_form(canonical(s));
    lemma_canonical_unique(canonical(canonical(s)), canonical(s));
}

/// Finds where a matcher belongs in a list: the position at which to insert
/// it, and whether the list holds it already.
fn find_slot(list: &Vec<Matcher>, m: &Matcher) -> (r: (usize, bool))
    ensures
        r.0 <= list@.len(),
        r.1 ==> insert_sorted(views_of(list@), m@) == views_of(list@),
        !r.1 ==> insert_sorted(views_of(list@), m@) == views_of(list@).insert(r.0 as int, m@),
{
    let ghost v = views_of(list@);
    let ghost x = m@;
    let n = list.len();
    let mut i: usize = 0;
    assert(v.subrange(0, 0) + insert_sorted(v.subrange(0, n as int), x) =~= insert_sorted(v, x))
        by {
        assert(v.subrange(0, n as int) =~= v);
    }
    while i < n
        invariant
            i <= n,
            n == list@.len(),
            v == views_of(list@),
            x == m@,
            insert_sorted(v, x) == v.subrange(0, i as int) + insert_sorted(
                v.subrange(i as int, n as int),
                x,
            ),
        decreases n - i,
    {
        let ghost t = v.subrange(i as int, n as int);
        assert(t[0] == list@[i as int]@);
        if m.comes_before(&list[i]) {
            assert(v.subrange(0, i as int) + (seq![x] + t) =~= v.insert(i as int, x));
            return (i, false);
        }
        if m.same_as(&list[i]) {
            assert(v.subrange(0, i as int) + t =~= v);
            return (i, true);
        }
        proof {
            assert(t.drop_first() =~= v.subrange(i as int + 1, n as int));
            assert(v.subrange(0, i as int) + (seq![t[0]] + insert_sorted(t.drop_first(), x))
                =~= v.subrange(0, i as int + 1) + insert_sorted(
                v.subrange(i as int + 1, n as int),
                x,
            ));
        }
        i += 1;
    }
    assert(v.subrange(0, n as int) + seq![x] =~= v.insert(n as int, x));
    (n, false)
}

/// Puts a matcher in its place in a sorted list, unless the list holds it
/// already.
pub fn insert_matcher(list: &mut Vec<Matcher>, m: Matcher)
    ensures
        views_of(final(list)@) == insert_sorted(views_of(old(list)@), m@),
{
    let slot = find_slot(list, &m);
    if !slot.1 {
        let ghost before = views_of(list@);
        let ghost x = m@;
        list.insert(slot.0, m);
        assert(views_of(list@) =~= before.insert(slot.0 as int, x));
    }
}

/// Sorts the matchers and removes duplicates.
pub fn canonicalize(matchers: Vec<Matcher>) -> (r: Vec<Matcher>)
    ensures
        views_of(r@) == canonical(views_of(matchers@)),
        is_canonical(views_of(r@)),
        same_members(views_of(r@), views_of(matchers@)),
{
    let ghost all = views_of(matchers@);
    let mut rest = matchers;
    let mut out: Vec<Matcher> = Vec::new();
    assert(all.subrange(all.len() as int, all.len() as int) =~= Seq::<MatcherView>::empty());
    assert(views_of(out@) =~= Seq::<MatcherView>::empty());
    while rest.len() > 0
        invariant
            rest@.len() <= all.len(),
            views_of(rest@) == all.subrange(0, rest@.len() as int),
            views_of(out@) == canonical(all.subrange(rest@.len() as int, all.len() as int)),
        decreases rest.len(),
    {
        let ghost k = rest@.len() as int;
        let ghost before = views_of(rest@);
        let last = rest.pop();
        match last {
            Some(m) => {
                proof {
                    assert(m@ == before[k - 1]);
                    assert(views_of(rest@) =~= all.subrange(0, k - 1));
                    let tail = all.subrange(k - 1, all.len() as int);
                    assert(tail[0] == m@);
                    assert(tail.drop_first() =~= all.subrange(k, all.len() as int));
                }
                insert_matcher(&mut out, m);
            },
            None => {},
        }
    }
    proof {
        assert(all.subrange(0, all.len() as int) =~= all);
        lemma_canonical_form(all);
    }
    out
}

} // verus!
