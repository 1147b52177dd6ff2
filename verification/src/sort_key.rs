//! The order of matchers, and the sort keys by which it is computed.
//!
//! Matchers are ordered by kind first: kinds rank in the alphabetical order
//! of their names. Matchers of one kind are ordered by their parameters:
//! texts and byte strings lexicographically by their bytes, two parameters
//! one after the other, lists pair by pair with a list before each of its
//! extensions.
//!
//! A matcher's key is a sequence of numbers that compares as the matchers
//! do: the rank of the kind, then each text or byte string as its bytes,
//! each raised by one, with a zero behind it.
use crate::headers::Headers;
use crate::matchers::{Matcher, MatcherView, TextPair};
use crate::order::{as_ints, lex_less, lex_lt, lemma_lex_asymmetric, lemma_lex_irreflexive, lemma_lex_total, lemma_lex_transitive};
use crate::request::pairs_view;
use crate::text::lemma_utf8_injective;
use vstd::prelude::*;
use vstd::utf8::encode_utf8;

verus! {

/// The bytes of a byte string as numbers.
pub open spec fn raw(b: Seq<u8>) -> Seq<int> {
    Seq::new(b.len(), |i: int| b[i] as int)
}

/// Whether one byte string comes before another: lexicographically, byte
/// by byte, a string before each of its extensions.
pub open spec fn bytes_lt(a: Seq<u8>, b: Seq<u8>) -> bool {
    lex_lt(raw(a), raw(b))
}

/// Whether one text comes before another: by the bytes of their UTF-8
/// encoding.
pub open spec fn text_lt(a: Seq<char>, b: Seq<char>) -> bool {
    bytes_lt(encode_utf8(a), encode_utf8(b))
}

/// Whether one pair of texts comes before another: by the first texts, and
/// by the second where the first are equal.
pub open spec fn pair_lt(p: TextPair, q: TextPair) -> bool {
    text_lt(p.0, q.0) || (p.0 == q.0 && text_lt(p.1, q.1))
}

/// Whether one list of pairs comes before another: the first position at
/// which they differ decides, and a list comes before each of its
/// extensions.
pub open spec fn pairs_lt(a: Seq<TextPair>, b: Seq<TextPair>) -> bool
    decreases a.len(),
{
    if b.len() == 0 {
        false
    } else if a.len() == 0 {
        true
    } else if pair_lt(a[0], b[0]) {
        true
    } else if a[0] != b[0] {
        false
    } else {
        pairs_lt(a.drop_first(), b.drop_first())
    }
}

/// A byte string in a key: each byte raised by one, then a zero.
pub open spec fn enc_bytes(b: Seq<u8>) -> Seq<int> {
    Seq::new(b.len(), |i: int| b[i] as int + 1).push(0)
}

/// A text in a key: its UTF-8 bytes as a byte string.
pub open spec fn enc_text(s: Seq<char>) -> Seq<int> {
    enc_bytes(encode_utf8(s))
}

/// A list of pairs of texts in a key, one pair after the other.
pub open spec fn enc_pairs(ps: Seq<TextPair>) -> Seq<int>
    decreases ps.len(),
{
    if ps.len() == 0 {
        Seq::empty()
    } else {
        enc_text(ps[0].0) + enc_text(ps[0].1) + enc_pairs(ps.drop_first())
    }
}

impl MatcherView {
    /// The rank of the matcher's kind: the position of the kind's name
    /// among the names in alphabetical order.
    pub open spec fn rank(self) -> int {
        match self {
            MatcherView::Any => 0,
            MatcherView::Body(_) => 1,
            MatcherView::Header(_, _) => 2,
            MatcherView::HeaderExists(_) => 3,
            MatcherView::Headers(_) => 4,
            MatcherView::HeadersExact(_) => 5,
            MatcherView::Method(_) => 6,
            MatcherView::Path(_) => 7,
            MatcherView::PathPrefix(_) => 8,
            MatcherView::QueryParam(_, _) => 9,
            MatcherView::QueryParamExists(_) => 10,
            MatcherView::QueryParams(_) => 11,
        }
    }

    /// Whether the parameters of this matcher come before those of another
    /// matcher of the same kind. Methods go by their order of declaration.
    pub open spec fn params_lt(self, other: MatcherView) -> bool {
        match (self, other) {
            (MatcherView::Body(x), MatcherView::Body(y)) => bytes_lt(x, y),
            (MatcherView::Header(n1, v1), MatcherView::Header(n2, v2)) => pair_lt(
                (n1, v1),
                (n2, v2),
            ),
            (MatcherView::HeaderExists(x), MatcherView::HeaderExists(y)) => text_lt(x, y),
            (MatcherView::Headers(x), MatcherView::Headers(y)) => pairs_lt(x, y),
            (MatcherView::HeadersExact(x), MatcherView::HeadersExact(y)) => pairs_lt(x, y),
            (MatcherView::Method(x), MatcherView::Method(y)) => x.spec_index() < y.spec_index(),
            (MatcherView::Path(x), MatcherView::Path(y)) => text_lt(x, y),
            (MatcherView::PathPrefix(x), MatcherView::PathPrefix(y)) => text_lt(x, y),
            (MatcherView::QueryParam(k1, v1), MatcherView::QueryParam(k2, v2)) => pair_lt(
                (k1, v1),
                (k2, v2),
            ),
            (MatcherView::QueryParamExists(x), MatcherView::QueryParamExists(y)) => text_lt(x, y),
            (MatcherView::QueryParams(x), MatcherView::QueryParams(y)) => pairs_lt(x, y),
            _ => false,
        }
    }

    /// Whether this matcher comes strictly before the other: its kind ranks
    /// first, or the kinds are the same and its parameters come first.
    pub open spec fn lt(self, other: MatcherView) -> bool {
        self.rank() < other.rank() || (self.rank() == other.rank() && self.params_lt(other))
    }

    /// The parameters of the matcher as they stand in its key.
    pub open spec fn params(self) -> Seq<int> {
        match self {
            MatcherView::Any => Seq::empty(),
            MatcherView::Body(b) => enc_bytes(b),
            MatcherView::Header(n, v) => enc_text(n) + enc_text(v),
            MatcherView::HeaderExists(n) => enc_text(n),
            MatcherView::Headers(h) => enc_pairs(h),
            MatcherView::HeadersExact(h) => enc_pairs(h),
            MatcherView::Method(m) => seq![m.spec_index() as int],
            MatcherView::Path(p) => enc_text(p),
            MatcherView::PathPrefix(p) => enc_text(p),
            MatcherView::QueryParam(k, v) => enc_text(k) + enc_text(v),
            MatcherView::QueryParamExists(k) => enc_text(k),
            MatcherView::QueryParams(ps) => enc_pairs(ps),
        }
    }

    /// The sort key: the rank of the kind, then the parameters.
    pub open spec fn key(self) -> Seq<int> {
        seq![self.rank()] + self.params()
    }
}

/// Where byte strings stand at the head of two sequences, the sequences
/// compare as the byte strings do, and as what follows them where the byte
/// strings are equal.
pub proof fn lemma_enc_bytes_order(x: Seq<u8>, r1: Seq<int>, y: Seq<u8>, r2: Seq<int>)
    ensures
        lex_lt(enc_bytes(x) + r1, enc_bytes(y) + r2) == (bytes_lt(x, y) || (x == y && lex_lt(
            r1,
            r2,
        ))),
    decreases x.len(),
{
    let a = enc_bytes(x) + r1;
    let b = enc_bytes(y) + r2;
    assert(a.len() > 0 && b.len() > 0);
    if x.len() == 0 {
        assert(a[0] == 0);
        if y.len() == 0 {
            assert(b[0] == 0);
            assert(x =~= y);
            assert(a.drop_first() =~= r1);
            assert(b.drop_first() =~= r2);
        } else {
            assert(b[0] == y[0] as int + 1);
        }
    } else {
        assert(a[0] == x[0] as int + 1);
        assert(raw(x)[0] == x[0] as int);
        if y.len() == 0 {
            assert(b[0] == 0);
        } else {
            assert(b[0] == y[0] as int + 1);
            assert(raw(y)[0] == y[0] as int);
            if x[0] == y[0] {
                let tx = x.drop_first();
                let ty = y.drop_first();
                lemma_enc_bytes_order(tx, r1, ty, r2);
                assert(a.drop_first() =~= enc_bytes(tx) + r1);
                assert(b.drop_first() =~= enc_bytes(ty) + r2);
                assert(raw(x).drop_first() =~= raw(tx));
                assert(raw(y).drop_first() =~= raw(ty));
                if tx == ty {
                    assert(x =~= seq![x[0]] + tx);
                    assert(y =~= seq![y[0]] + ty);
                }
            }
        }
    }
}

/// Where a byte string stands at the head of two equal sequences, the byte
/// strings are equal and so is what follows them.
pub proof fn lemma_enc_bytes_prefix(x: Seq<u8>, r1: Seq<int>, y: Seq<u8>, r2: Seq<int>)
    requires
        enc_bytes(x) + r1 == enc_bytes(y) + r2,
    ensures
        x == y,
        r1 == r2,
{
    let a = enc_bytes(x) + r1;
    let b = enc_bytes(y) + r2;
    if x.len() < y.len() {
        assert(a[x.len() as int] == 0);
        assert(b[x.len() as int] == y[x.len() as int] as int + 1);
    }
    if y.len() < x.len() {
        assert(b[y.len() as int] == 0);
        assert(a[y.len() as int] == x[y.len() as int] as int + 1);
    }
    assert forall|i: int| 0 <= i < x.len() implies x[i] == y[i] by {
        assert(a[i] == x[i] as int + 1);
        assert(b[i] == y[i] as int + 1);
    }
    assert(x =~= y);
    assert(r1 =~= a.subrange(x.len() as int + 1, a.len() as int));
    assert(r2 =~= b.subrange(y.len() as int + 1, b.len() as int));
}

/// Where a text stands at the head of two equal sequences, the texts are
/// equal and so is what follows them.
pub proof fn lemma_enc_text_prefix(x: Seq<char>, r1: Seq<int>, y: Seq<char>, r2: Seq<int>)
    requires
        enc_text(x) + r1 == enc_text(y) + r2,
    ensures
        x == y,
        r1 == r2,
{
    lemma_enc_bytes_prefix(encode_utf8(x), r1, encode_utf8(y), r2);
    lemma_utf8_injective(x, y);
}

/// Where pairs of texts stand at the head of two sequences, the sequences
/// compare as the pairs do, and as what follows them where the pairs are
/// equal.
pub proof fn lemma_enc_pair_order(p: TextPair, r1: Seq<int>, q: TextPair, r2: Seq<int>)
    ensures
        lex_lt(enc_text(p.0) + enc_text(p.1) + r1, enc_text(q.0) + enc_text(q.1) + r2) == (
        pair_lt(p, q) || (p == q && lex_lt(r1, r2))),
{
    let s1 = enc_text(p.1) + r1;
    let s2 = enc_text(q.1) + r2;
    assert(enc_text(p.0) + enc_text(p.1) + r1 =~= enc_text(p.0) + s1);
    assert(enc_text(q.0) + enc_text(q.1) + r2 =~= enc_text(q.0) + s2);
    lemma_enc_bytes_order(encode_utf8(p.0), s1, encode_utf8(q.0), s2);
    lemma_enc_bytes_order(encode_utf8(p.1), r1, encode_utf8(q.1), r2);
    if encode_utf8(p.0) == encode_utf8(q.0) {
        lemma_utf8_injective(p.0, q.0);
    }
    if encode_utf8(p.1) == encode_utf8(q.1) {
        lemma_utf8_injective(p.1, q.1);
    }
}

/// The keys of two lists of pairs compare as the lists do.
pub proof fn lemma_enc_pairs_order(a: Seq<TextPair>, b: Seq<TextPair>)
    ensures
        lex_lt(enc_pairs(a), enc_pairs(b)) == pairs_lt(a, b),
    decreases a.len(),
{
    if b.len() == 0 {
    } else if a.len() == 0 {
        assert(enc_pairs(b).len() > 0);
    } else {
        lemma_enc_pair_order(a[0], enc_pairs(a.drop_first()), b[0], enc_pairs(b.drop_first()));
        lemma_enc_pairs_order(a.drop_first(), b.drop_first());
    }
}

/// Two lists of pairs with the same key are the same list.
pub proof fn lemma_enc_pairs_injective(a: Seq<TextPair>, b: Seq<TextPair>)
    requires
        enc_pairs(a) == enc_pairs(b),
    ensures
        a == b,
    decreases a.len(),
{
    if a.len() == 0 || b.len() == 0 {
        if a.len() > 0 {
            assert(enc_pairs(a).len() > 0);
        }
        if b.len() > 0 {
            assert(enc_pairs(b).len() > 0);
        }
        assert(a =~= b);
    } else {
        let ta = a.drop_first();
        let tb = b.drop_first();
        let ra = enc_text(a[0].1) + enc_pairs(ta);
        let rb = enc_text(b[0].1) + enc_pairs(tb);
        assert(enc_pairs(a) =~= enc_text(a[0].0) + ra);
        assert(enc_pairs(b) =~= enc_text(b[0].0) + rb);
        lemma_enc_text_prefix(a[0].0, ra, b[0].0, rb);
        lemma_enc_text_prefix(a[0].1, enc_pairs(ta), b[0].1, enc_pairs(tb));
        lemma_enc_pairs_injective(ta, tb);
        assert(a[0] == b[0]);
        assert(a =~= seq![a[0]] + ta);
        assert(b =~= seq![b[0]] + tb);
    }
}

proof fn lemma_two_texts(a0: Seq<char>, a1: Seq<char>, b0: Seq<char>, b1: Seq<char>)
    ensures
        enc_text(a0) + enc_text(a1) == enc_text(b0) + enc_text(b1) ==> a0 == b0 && a1 == b1,
        lex_lt(enc_text(a0) + enc_text(a1), enc_text(b0) + enc_text(b1)) == pair_lt(
            (a0, a1),
            (b0, b1),
        ),
{
    let e = Seq::<int>::empty();
    assert(enc_text(a0) + enc_text(a1) + e =~= enc_text(a0) + enc_text(a1));
    assert(enc_text(b0) + enc_text(b1) + e =~= enc_text(b0) + enc_text(b1));
    lemma_enc_pair_order((a0, a1), e, (b0, b1), e);
    if enc_text(a0) + enc_text(a1) == enc_text(b0) + enc_text(b1) {
        lemma_enc_text_prefix(a0, enc_text(a1), b0, enc_text(b1));
        assert(enc_text(a1) + e =~= enc_text(a1));
        assert(enc_text(b1) + e =~= enc_text(b1));
        lemma_enc_text_prefix(a1, e, b1, e);
    }
}

proof fn lemma_one_bytes(a: Seq<u8>, b: Seq<u8>)
    ensures
        enc_bytes(a) == enc_bytes(b) ==> a == b,
        lex_lt(enc_bytes(a), enc_bytes(b)) == bytes_lt(a, b),
{
    let e = Seq::<int>::empty();
    assert(enc_bytes(a) + e =~= enc_bytes(a));
    assert(enc_bytes(b) + e =~= enc_bytes(b));
    lemma_enc_bytes_order(a, e, b, e);
    if enc_bytes(a) == enc_bytes(b) {
        lemma_enc_bytes_prefix(a, e, b, e);
    }
}

proof fn lemma_one_text(a: Seq<char>, b: Seq<char>)
    ensures
        enc_text(a) == enc_text(b) ==> a == b,
        lex_lt(enc_text(a), enc_text(b)) == text_lt(a, b),
{
    lemma_one_bytes(encode_utf8(a), encode_utf8(b));
    if enc_text(a) == enc_text(b) {
        lemma_utf8_injective(a, b);
    }
}

proof fn lemma_pairs(a: Seq<TextPair>, b: Seq<TextPair>)
    ensures
        enc_pairs(a) == enc_pairs(b) ==> a == b,
        lex_lt(enc_pairs(a), enc_pairs(b)) == pairs_lt(a, b),
{
    lemma_enc_pairs_order(a, b);
    if enc_pairs(a) == enc_pairs(b) {
        lemma_enc_pairs_injective(a, b);
    }
}

/// What the key states of two matchers of one kind: their parameters are
/// equal where the keys are, and the keys compare as the parameters do.
proof fn lemma_same_kind(a: MatcherView, b: MatcherView)
    requires
        a.rank() == b.rank(),
    ensures
        a.params() == b.params() ==> a == b,
        lex_lt(a.params(), b.params()) == a.params_lt(b),
{
    match (a, b) {
        (MatcherView::Any, MatcherView::Any) => {},
        (MatcherView::Body(x), MatcherView::Body(y)) => {
            lemma_one_bytes(x, y);
        },
        (MatcherView::Header(n1, v1), MatcherView::Header(n2, v2)) => {
            lemma_two_texts(n1, v1, n2, v2);
        },
        (MatcherView::HeaderExists(x), MatcherView::HeaderExists(y)) => {
            lemma_one_text(x, y);
        },
        (MatcherView::Headers(x), MatcherView::Headers(y)) => {
            lemma_pairs(x, y);
        },
        (MatcherView::HeadersExact(x), MatcherView::HeadersExact(y)) => {
            lemma_pairs(x, y);
        },
        (MatcherView::Method(x), MatcherView::Method(y)) => {
            assert(a.params()[0] == x.spec_index());
            assert(b.params()[0] == y.spec_index());
            assert(a.params().drop_first() =~= Seq::<int>::empty());
            assert(b.params().drop_first() =~= Seq::<int>::empty());
            assert(!lex_lt(a.params().drop_first(), b.params().drop_first()));
            if x.spec_index() == y.spec_index() {
                assert(x == y);
            }
        },
        (MatcherView::Path(x), MatcherView::Path(y)) => {
            lemma_one_text(x, y);
        },
        (MatcherView::PathPrefix(x), MatcherView::PathPrefix(y)) => {
            lemma_one_text(x, y);
        },
        (MatcherView::QueryParam(k1, v1), MatcherView::QueryParam(k2, v2)) => {
            lemma_two_texts(k1, v1, k2, v2);
        },
        (MatcherView::QueryParamExists(x), MatcherView::QueryParamExists(y)) => {
            lemma_one_text(x, y);
        },
        (MatcherView::QueryParams(x), MatcherView::QueryParams(y)) => {
            lemma_pairs(x, y);
        },
        _ => {
            assert(a.rank() != b.rank());
        },
    }
}

/// The keys of two matchers compare as the matchers do.
pub proof fn lemma_key_order(a: MatcherView, b: MatcherView)
    ensures
        lex_lt(a.key(), b.key()) == a.lt(b),
{
    assert(a.key()[0] == a.rank());
    assert(b.key()[0] == b.rank());
    assert(a.key().drop_first() =~= a.params());
    assert(b.key().drop_first() =~= b.params());
    if a.rank() == b.rank() {
        lemma_same_kind(a, b);
    }
}

/// Two matchers with the same key are of the same kind with the same
/// parameters.
pub proof fn lemma_key_injective(a: MatcherView, b: MatcherView)
    requires
        a.key() == b.key(),
    ensures
        a == b,
{
    assert(a.key()[0] == a.rank());
    assert(b.key()[0] == b.rank());
    assert(a.key().drop_first() =~= a.params());
    assert(b.key().drop_first() =~= b.params());
    lemma_same_kind(a, b);
}

/// No matcher comes before itself.
pub proof fn lemma_lt_irreflexive(a: MatcherView)
    ensures
        !a.lt(a),
{
    lemma_key_order(a, a);
    lemma_lex_irreflexive(a.key());
}

/// Of two matchers at most one comes before the other.
pub proof fn lemma_lt_asymmetric(a: MatcherView, b: MatcherView)
    ensures
        !(a.lt(b) && b.lt(a)),
{
    lemma_key_order(a, b);
    lemma_key_order(b, a);
    lemma_lex_asymmetric(a.key(), b.key());
}

/// The order of matchers is transitive.
pub proof fn lemma_lt_transitive(a: MatcherView, b: MatcherView, c: MatcherView)
    requires
        a.lt(b),
        b.lt(c),
    ensures
        a.lt(c),
{
    lemma_key_order(a, b);
    lemma_key_order(b, c);
    lemma_key_order(a, c);
    lemma_lex_transitive(a.key(), b.key(), c.key());
}

/// Of two different matchers one comes before the other.
pub proof fn lemma_lt_total(a: MatcherView, b: MatcherView)
    ensures
        a == b || a.lt(b) || b.lt(a),
{
    lemma_key_order(a, b);
    lemma_key_order(b, a);
    lemma_lex_total(a.key(), b.key());
    if a.key() == b.key() {
        lemma_key_injective(a, b);
    }
}

/// Two matchers are equal, that is of the same kind with the same
/// parameters, exactly when neither comes before the other.
pub proof fn lemma_equal_iff_neither_first(a: MatcherView, b: MatcherView)
    ensures
        a == b <==> !a.lt(b) && !b.lt(a),
{
    lemma_lt_total(a, b);
    lemma_lt_irreflexive(a);
}

/// The characters of a text as numbers.
pub open spec fn codes(s: Seq<char>) -> Seq<int> {
    Seq::new(s.len(), |i: int| s[i] as int)
}

/// The name of the kind that has a rank.
pub open spec fn name_at(rank: int) -> Seq<char> {
    if rank == 0 {
        "any"@
    } else if rank == 1 {
        "body"@
    } else if rank == 2 {
        "header"@
    } else if rank == 3 {
        "header_exists"@
    } else if rank == 4 {
        "headers"@
    } else if rank == 5 {
        "headers_exact"@
    } else if rank == 6 {
        "method"@
    } else if rank == 7 {
        "path"@
    } else if rank == 8 {
        "path_prefix"@
    } else if rank == 9 {
        "query_param"@
    } else if rank == 10 {
        "query_param_exists"@
    } else {
        "query_params"@
    }
}

proof fn lemma_differ_at(x: Seq<int>, y: Seq<int>, i: int)
    requires
        0 <= i <= x.len(),
        i <= y.len(),
        x.subrange(0, i) == y.subrange(0, i),
        i < y.len(),
        i < x.len() ==> x[i] < y[i],
    ensures
        lex_lt(x, y),
{
    assert forall|j: int| 0 <= j < i implies x[j] == y[j] by {
        assert(x.subrange(0, i)[j] == x[j]);
        assert(y.subrange(0, i)[j] == y[j]);
    }
    crate::order::lemma_lex_skip_common(x, y, i);
    let a = x.subrange(i, x.len() as int);
    let b = y.subrange(i, y.len() as int);
    assert(b[0] == y[i]);
    if i < x.len() {
        assert(a[0] == x[i]);
    }
}

proof fn lemma_next_name(k: int)
    requires
        0 <= k < 11,
    ensures
        lex_lt(codes(name_at(k)), codes(name_at(k + 1))),
{
    reveal_strlit("any");
    reveal_strlit("body");
    reveal_strlit("header");
    reveal_strlit("header_exists");
    reveal_strlit("headers");
    reveal_strlit("headers_exact");
    reveal_strlit("method");
    reveal_strlit("path");
    reveal_strlit("path_prefix");
    reveal_strlit("query_param");
    reveal_strlit("query_param_exists");
    reveal_strlit("query_params");
    let x = codes(name_at(k));
    let y = codes(name_at(k + 1));
    let i: int = if k == 2 || k == 3 {
        6
    } else if k == 4 {
        7
    } else if k == 7 {
        4
    } else if k == 9 || k == 10 {
        11
    } else {
        0
    };
    assert(x.subrange(0, i) =~= y.subrange(0, i));
    lemma_differ_at(x, y, i);
}

proof fn lemma_names_increase(k: int, m: int)
    requires
        0 <= k < m <= 11,
    ensures
        lex_lt(codes(name_at(k)), codes(name_at(m))),
    decreases m - k,
{
    lemma_next_name(k);
    if k + 1 < m {
        lemma_names_increase(k + 1, m);
        lemma_lex_transitive(codes(name_at(k)), codes(name_at(k + 1)), codes(name_at(m)));
    }
}

/// Kinds rank in the alphabetical order of their names: one kind ranks
/// before another exactly when its name comes first.
pub proof fn lemma_rank_follows_name(a: MatcherView, b: MatcherView)
    ensures
        a.name() == name_at(a.rank()),
        a.rank() < b.rank() <==> lex_lt(codes(a.name()), codes(b.name())),
{
    assert(a.name() == name_at(a.rank()));
    assert(b.name() == name_at(b.rank()));
    if a.rank() < b.rank() {
        lemma_names_increase(a.rank(), b.rank());
    } else if a.rank() == b.rank() {
        lemma_lex_irreflexive(codes(a.name()));
    } else {
        lemma_names_increase(b.rank(), a.rank());
        lemma_lex_asymmetric(codes(a.name()), codes(b.name()));
    }
}

fn push_bytes(out: &mut Vec<u64>, b: &[u8])
    ensures
        as_ints(final(out)@) == as_ints(old(out)@) + enc_bytes(b@),
{
    let ghost start = as_ints(out@);
    assert(as_ints(out@) =~= start + Seq::new(0nat, |k: int| b@[k] as int + 1));
    let mut i: usize = 0;
    while i < b.len()
        invariant
            i <= b.len(),
            as_ints(out@) == start + Seq::new(i as nat, |k: int| b@[k] as int + 1),
        decreases b.len() - i,
    {
        let ghost before = as_ints(out@);
        out.push(b[i] as u64 + 1);
        assert(as_ints(out@) =~= before.push(b@[i as int] as int + 1));
        assert(as_ints(out@) =~= start + Seq::new((i + 1) as nat, |k: int| b@[k] as int + 1));
        i += 1;
    }
    let ghost before = as_ints(out@);
    out.push(0);
    assert(as_ints(out@) =~= before.push(0));
    assert(as_ints(out@) =~= start + enc_bytes(b@));
}

fn push_text(out: &mut Vec<u64>, s: &str)
    ensures
        as_ints(final(out)@) == as_ints(old(out)@) + enc_text(s@),
{
    push_bytes(out, s.as_bytes());
}

fn push_number(out: &mut Vec<u64>, n: u64)
    ensures
        as_ints(final(out)@) == as_ints(old(out)@) + seq![n as int],
{
    let ghost before = as_ints(out@);
    out.push(n);
    assert(as_ints(out@) =~= before + seq![n as int]);
}

proof fn lemma_enc_pairs_step(ps: Seq<TextPair>, i: int)
    requires
        0 <= i < ps.len(),
    ensures
        enc_pairs(ps.subrange(i, ps.len() as int)) == enc_text(ps[i].0) + enc_text(ps[i].1)
            + enc_pairs(ps.subrange(i + 1, ps.len() as int)),
{
    let t = ps.subrange(i, ps.len() as int);
    assert(t[0] == ps[i]);
    assert(t.drop_first() =~= ps.subrange(i + 1, ps.len() as int));
}

fn push_headers(out: &mut Vec<u64>, h: &Headers)
    ensures
        as_ints(final(out)@) == as_ints(old(out)@) + enc_pairs(h@),
{
    let ghost start = as_ints(out@);
    let n = h.len();
    let mut i: usize = 0;
    assert(h@.subrange(0, h@.len() as int) =~= h@);
    while i < n
        invariant
            i <= n,
            n == h@.len(),
            as_ints(out@) + enc_pairs(h@.subrange(i as int, n as int)) == start + enc_pairs(h@),
        decreases n - i,
    {
        let ghost before = as_ints(out@);
        let entry = h.entry(i);
        push_text(out, entry.0);
        push_text(out, entry.1);
        proof {
            lemma_enc_pairs_step(h@, i as int);
            assert(as_ints(out@) + enc_pairs(h@.subrange(i as int + 1, n as int)) =~= before
                + enc_pairs(h@.subrange(i as int, n as int)));
        }
        i += 1;
    }
    assert(enc_pairs(h@.subrange(n as int, n as int)) =~= Seq::<int>::empty());
    assert(as_ints(out@) =~= as_ints(out@) + Seq::<int>::empty());
}

fn push_pairs(out: &mut Vec<u64>, ps: &Vec<(String, String)>)
    ensures
        as_ints(final(out)@) == as_ints(old(out)@) + enc_pairs(pairs_view(ps@)),
{
    let ghost start = as_ints(out@);
    let ghost all = pairs_view(ps@);
    let n = ps.len();
    let mut i: usize = 0;
    assert(all.subrange(0, all.len() as int) =~= all);
    while i < n
        invariant
            i <= n,
            n == ps@.len(),
            all == pairs_view(ps@),
            as_ints(out@) + enc_pairs(all.subrange(i as int, n as int)) == start + enc_pairs(all),
        decreases n - i,
    {
        let ghost before = as_ints(out@);
        push_text(out, ps[i].0.as_str());
        push_text(out, ps[i].1.as_str());
        proof {
            lemma_enc_pairs_step(all, i as int);
            assert(as_ints(out@) + enc_pairs(all.subrange(i as int + 1, n as int)) =~= before
                + enc_pairs(all.subrange(i as int, n as int)));
        }
        i += 1;
    }
    assert(enc_pairs(all.subrange(n as int, n as int)) =~= Seq::<int>::empty());
    assert(as_ints(out@) =~= as_ints(out@) + Seq::<int>::empty());
}

impl Matcher {
    /// Returns the sort key of the matcher.
    pub fn sort_key(&self) -> (r: Vec<u64>)
        ensures
            as_ints(r@) == self@.key(),
    {
        let mut out: Vec<u64> = Vec::new();
        assert(as_ints(out@) =~= Seq::<int>::empty());
        match self {
            Matcher::Any(_) => {
                push_number(&mut out, 0);
            },
            Matcher::Body(m) => {
                push_number(&mut out, 1);
                let bytes = m.0.as_bytes();
                push_bytes(&mut out, bytes.as_slice());
            },
            Matcher::Header(m) => {
                push_number(&mut out, 2);
                push_text(&mut out, m.0.as_str());
                push_text(&mut out, m.1.as_str());
            },
            Matcher::HeaderExists(m) => {
                push_number(&mut out, 3);
                push_text(&mut out, m.0.as_str());
            },
            Matcher::Headers(m) => {
                push_number(&mut out, 4);
                push_headers(&mut out, &m.0);
            },
            Matcher::HeadersExact(m) => {
                push_number(&mut out, 5);
                push_headers(&mut out, &m.0);
            },
            Matcher::Method(m) => {
                push_number(&mut out, 6);
                push_number(&mut out, m.0.index() as u64);
            },
            Matcher::Path(m) => {
                push_number(&mut out, 7);
                push_text(&mut out, m.0.as_str());
            },
            Matcher::PathPrefix(m) => {
                push_number(&mut out, 8);
                push_text(&mut out, m.0.as_str());
            },
            Matcher::QueryParam(m) => {
                push_number(&mut out, 9);
                push_text(&mut out, m.0.as_str());
                push_text(&mut out, m.1.as_str());
            },
            Matcher::QueryParamExists(m) => {
                push_number(&mut out, 10);
                push_text(&mut out, m.0.as_str());
            },
            Matcher::QueryParams(m) => {
                push_number(&mut out, 11);
                push_pairs(&mut out, &m.0);
            },
        }
        assert(as_ints(out@) =~= self@.key());
        out
    }

    /// Returns true if this matcher comes strictly before the other: its
    /// kind ranks first, or the kinds are the same and its parameters come
    /// first.
    pub fn comes_before(&self, other: &Matcher) -> (r: bool)
        ensures
            r == self@.lt(other@),
    {
        let a = self.sort_key();
        let b = other.sort_key();
        proof {
            lemma_key_order(self@, other@);
        }
        lex_less(a.as_slice(), b.as_slice())
    }

    /// Returns true if both matchers are of the same kind with the same
    /// parameters.
    pub fn same_as(&self, other: &Matcher) -> (r: bool)
        ensures
            r == (self@ == other@),
    {
        let a = self.sort_key();
        let b = other.sort_key();
        let r = !lex_less(a.as_slice(), b.as_slice()) && !lex_less(b.as_slice(), a.as_slice());
        proof {
            lemma_key_order(self@, other@);
            lemma_key_order(other@, self@);
            lemma_equal_iff_neither_first(self@, other@);
        }
        r
    }
}

impl PartialEq for Matcher {
    fn eq(&self, other: &Matcher) -> (r: bool) {
        self.same_as(other)
    }
}

impl vstd::std_specs::cmp::PartialEqSpecImpl for Matcher {
    open spec fn obeys_eq_spec() -> bool {
        true
    }

    open spec fn eq_spec(&self, other: &Matcher) -> bool {
        self@ == other@
    }
}

} // verus!
