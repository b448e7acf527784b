//! A stable sort of keyed positions: by a numeric key, then by text in
//! `String` order, then by position.
use vstd::prelude::*;

verus! {

/// `a` comes before `b` in `String`'s order (lexicographic by code point,
/// which is the byte order of their UTF-8 encodings).
pub open spec fn seq_lt(a: Seq<char>, b: Seq<char>) -> bool
    decreases a.len(),
{
    if a.len() == 0 {
        b.len() > 0
    } else if b.len() == 0 {
        false
    } else if a[0] != b[0] {
        a[0] < b[0]
    } else {
        seq_lt(a.drop_first(), b.drop_first())
    }
}

/// No text comes before itself.
pub proof fn lemma_seq_lt_irrefl(a: Seq<char>)
    ensures
        !seq_lt(a, a),
    decreases a.len(),
{
    if a.len() > 0 {
        lemma_seq_lt_irrefl(a.drop_first());
    }
}

/// The text order is transitive.
pub proof fn lemma_seq_lt_trans(a: Seq<char>, b: Seq<char>, c: Seq<char>)
    requires
        seq_lt(a, b),
        seq_lt(b, c),
    ensures
        seq_lt(a, c),
    decreases a.len(),
{
    if a.len() > 0 && b.len() > 0 && c.len() > 0 {
        if a[0] == b[0] && b[0] == c[0] {
            lemma_seq_lt_trans(a.drop_first(), b.drop_first(), c.drop_first());
        }
    }
}

/// Of two different texts one comes first.
pub proof fn lemma_seq_lt_total(a: Seq<char>, b: Seq<char>)
    ensures
        a == b || seq_lt(a, b) || seq_lt(b, a),
        !(seq_lt(a, b) && seq_lt(b, a)),
    decreases a.len(),
{
    if a.len() > 0 && b.len() > 0 {
        if a[0] == b[0] {
            lemma_seq_lt_total(a.drop_first(), b.drop_first());
            if a.drop_first() == b.drop_first() {
                assert(a =~= seq![a[0]] + a.drop_first());
                assert(b =~= seq![b[0]] + b.drop_first());
            }
        }
    } else if a.len() == 0 && b.len() == 0 {
        assert(a =~= b);
    }
}

/// A sort key: smaller numbers first, then smaller texts, then smaller
/// positions.
pub struct KeyView {
    pub primary: int,
    pub text: Seq<char>,
    pub index: int,
}

/// Key `a` comes before key `b`.
pub open spec fn key_lt(a: KeyView, b: KeyView) -> bool {
    ||| a.primary < b.primary
    ||| a.primary == b.primary && seq_lt(a.text, b.text)
    ||| a.primary == b.primary && a.text == b.text && a.index < b.index
}

/// The key order is transitive.
pub proof fn lemma_key_lt_trans(a: KeyView, b: KeyView, c: KeyView)
    requires
        key_lt(a, b),
        key_lt(b, c),
    ensures
        key_lt(a, c),
{
    if a.primary == b.primary && b.primary == c.primary {
        if seq_lt(a.text, b.text) && seq_lt(b.text, c.text) {
            lemma_seq_lt_trans(a.text, b.text, c.text);
        }
    }
}

/// Of two keys at different positions exactly one comes first.
pub proof fn lemma_key_lt_total(a: KeyView, b: KeyView)
    requires
        a.index != b.index,
    ensures
        key_lt(a, b) || key_lt(b, a),
        !(key_lt(a, b) && key_lt(b, a)),
{
    lemma_seq_lt_total(a.text, b.text);
    lemma_seq_lt_irrefl(a.text);
}

/// No key comes before itself.
pub proof fn lemma_key_lt_irrefl(a: KeyView)
    ensures
        !key_lt(a, a),
{
    lemma_seq_lt_irrefl(a.text);
}

/// Two lists sorted strictly by `key` that hold the same positions are the
/// same list: a sorted order is determined by what it sorts.
pub proof fn lemma_sorted_unique(x: Seq<usize>, y: Seq<usize>, key: spec_fn(usize) -> KeyView)
    requires
        forall|i: int, j: int| 0 <= i < j < x.len() ==> key_lt(key(x[i]), key(x[j])),
        forall|i: int, j: int| 0 <= i < j < y.len() ==> key_lt(key(y[i]), key(y[j])),
        forall|i: int| 0 <= i < x.len() ==> y.contains(#[trigger] x[i]),
        forall|i: int| 0 <= i < y.len() ==> x.contains(#[trigger] y[i]),
    ensures
        x == y,
    decreases x.len(),
{
    if x.len() == 0 {
        if y.len() > 0 {
            assert(x.contains(y[0]));
        }
        assert(x =~= y);
    } else {
        assert(y.contains(x[0]));
        let j = choose|j: int| 0 <= j < y.len() && y[j] == x[0];
        assert(x.contains(y[0]));
        let k = choose|k: int| 0 <= k < x.len() && x[k] == y[0];
        if x[0] != y[0] {
            assert(j > 0 && k > 0);
            assert(key_lt(key(y[0]), key(y[j])));
            assert(key_lt(key(x[0]), key(x[k])));
            lemma_key_lt_trans(key(x[0]), key(y[0]), key(x[0]));
            lemma_key_lt_irrefl(key(x[0]));
        }
        let xt = x.drop_first();
        let yt = y.drop_first();
        assert forall|i: int| 0 <= i < xt.len() implies yt.contains(#[trigger] xt[i]) by {
            assert(xt[i] == x[i + 1]);
            assert(y.contains(x[i + 1]));
            let m = choose|m: int| 0 <= m < y.len() && y[m] == x[i + 1];
            if m == 0 {
                assert(key_lt(key(x[0]), key(x[i + 1])));
                lemma_key_lt_irrefl(key(x[0]));
            } else {
                assert(yt[m - 1] == y[m]);
            }
        }
        assert forall|i: int| 0 <= i < yt.len() implies xt.contains(#[trigger] yt[i]) by {
            assert(yt[i] == y[i + 1]);
            assert(x.contains(y[i + 1]));
            let m = choose|m: int| 0 <= m < x.len() && x[m] == y[i + 1];
            if m == 0 {
                assert(key_lt(key(y[0]), key(y[i + 1])));
                lemma_key_lt_irrefl(key(y[0]));
            } else {
                assert(xt[m - 1] == x[m]);
            }
        }
        lemma_sorted_unique(xt, yt, key);
        assert(x =~= seq![x[0]] + xt);
        assert(y =~= seq![y[0]] + yt);
    }
}

/// A position with its sort key.
#[derive(Debug)]
pub struct Keyed {
    pub primary: i128,
    pub text: Vec<char>,
    pub index: usize,
}

/// The key of an item.
pub open spec fn key_of(k: Keyed) -> KeyView {
    KeyView { primary: k.primary as int, text: k.text@, index: k.index as int }
}

/// The keys of the items.
pub open spec fn keys_of(ks: Seq<Keyed>) -> Seq<KeyView> {
    ks.map_values(|k: Keyed| key_of(k))
}

/// Every key comes before every later one.
pub open spec fn strictly_sorted(ks: Seq<KeyView>) -> bool {
    forall|i: int, j: int| 0 <= i < j < ks.len() ==> key_lt(ks[i], ks[j])
}

/// `a` comes before `b` in `String`'s order.
pub fn text_lt(a: &[char], b: &[char]) -> (r: bool)
    ensures
        r == seq_lt(a@, b@),
{
    let mut i: usize = 0;
    proof {
        assert(a@.skip(0) =~= a@);
        assert(b@.skip(0) =~= b@);
    }
    while i < a.len() && i < b.len() && a[i] == b[i]
        invariant
            i <= a@.len(),
            i <= b@.len(),
            seq_lt(a@, b@) == seq_lt(a@.skip(i as int), b@.skip(i as int)),
        decreases a@.len() - i,
    {
        proof {
            assert(a@.skip(i as int).drop_first() =~= a@.skip(i + 1));
            assert(b@.skip(i as int).drop_first() =~= b@.skip(i + 1));
        }
        i = i + 1;
    }
    if i == a.len() {
        i < b.len()
    } else if i == b.len() {
        false
    } else {
        proof {
            assert(a@.skip(i as int)[0] == a@[i as int]);
            assert(b@.skip(i as int)[0] == b@[i as int]);
        }
        a[i] < b[i]
    }
}

/// Whether key `a` comes before key `b`.
pub fn keyed_lt(a: &Keyed, b: &Keyed) -> (r: bool)
    ensures
        r == key_lt(key_of(*a), key_of(*b)),
{
    if a.primary < b.primary {
        return true;
    }
    if a.primary > b.primary {
        return false;
    }
    if text_lt(&a.text, &b.text) {
        return true;
    }
    if text_lt(&b.text, &a.text) {
        proof {
            lemma_seq_lt_total(a.text@, b.text@);
        }
        return false;
    }
    proof {
        lemma_seq_lt_total(a.text@, b.text@);
    }
    a.index < b.index
}

/// Sorts the items by their keys; the positions must be distinct, so the
/// order is total and the result is the one stable ordering.
pub fn sort_keyed(items: Vec<Keyed>) -> (r: Vec<Keyed>)
    requires
        forall|i: int, j: int|
            0 <= i < j < items@.len() ==> items@[i].index != items@[j].index,
    ensures
        r@.len() == items@.len(),
        strictly_sorted(keys_of(r@)),
        forall|x: KeyView| keys_of(r@).contains(x) <==> keys_of(items@).contains(x),
{
    let ghost input = keys_of(items@);
    let mut sorted: Vec<Keyed> = Vec::new();
    let mut rest = items;
    let ghost orig = rest@;
    // take items from the front by reversing once
    let mut rev: Vec<Keyed> = Vec::new();
    while rest.len() > 0
        invariant
            rev@.len() + rest@.len() == orig.len(),
            rest@ == orig.take(rest@.len() as int),
            forall|k: int| 0 <= k < rev@.len() ==> rev@[k] == orig[orig.len() - 1 - k],
        decreases rest@.len(),
    {
        let x = rest.pop().unwrap();
        let ghost before = rev@;
        rev.push(x);
        proof {
            assert(rest@ =~= orig.take(rest@.len() as int));
        }
    }
    // rev holds the items last-first; popping gives them first-last
    let n = rev.len();
    while rev.len() > 0
        invariant
            n == orig.len(),
            rev@.len() <= n,
            forall|k: int| 0 <= k < rev@.len() ==> rev@[k] == orig[orig.len() - 1 - k],
            sorted@.len() == n - rev@.len(),
            strictly_sorted(keys_of(sorted@)),
            forall|x: KeyView|
                keys_of(sorted@).contains(x) <==> keys_of(orig.take(n - rev@.len())).contains(x),
            forall|i: int, j: int| 0 <= i < j < orig.len() ==> orig[i].index != orig[j].index,
            input == keys_of(orig),
        decreases rev@.len(),
    {
        let ghost done = n - rev@.len();
        let x = rev.pop().unwrap();
        proof {
            assert(x == orig[done]);
        }
        let mut p: usize = 0;
        while p < sorted.len() && keyed_lt(&sorted[p], &x)
            invariant
                p <= sorted@.len(),
                forall|k: int| 0 <= k < p ==> key_lt(key_of(sorted@[k]), key_of(x)),
            decreases sorted@.len() - p,
        {
            p = p + 1;
        }
        let ghost s0 = keys_of(sorted@);
        let ghost kx = key_of(x);
        proof {
            // x's index differs from every index already placed
            assert forall|k: int| 0 <= k < s0.len() implies s0[k].index != kx.index by {
                assert(s0.contains(s0[k]));
                assert(keys_of(orig.take(done)).contains(s0[k]));
                let j = choose|j: int| 0 <= j < done && keys_of(orig.take(done))[j] == s0[k];
                assert(orig.take(done)[j] == orig[j]);
            }
            if p < s0.len() {
                lemma_key_lt_total(s0[p as int], kx);
                assert forall|k: int| p <= k < s0.len() implies key_lt(kx, s0[k]) by {
                    if k > p {
                        lemma_key_lt_trans(kx, s0[p as int], s0[k]);
                    }
                }
            }
        }
        sorted.insert(p, x);
        proof {
            let s1 = keys_of(sorted@);
            assert(s1 =~= s0.insert(p as int, kx));
            assert forall|i: int, j: int| 0 <= i < j < s1.len() implies key_lt(s1[i], s1[j]) by {
                if j < p {
                } else if i < p && j == p {
                } else if i < p && j > p {
                    assert(s1[j] == s0[j - 1]);
                    assert(key_lt(s0[i], s0[j - 1]));
                } else if i == p {
                    assert(s1[j] == s0[j - 1]);
                } else {
                    assert(s1[i] == s0[i - 1]);
                    assert(s1[j] == s0[j - 1]);
                }
            }
            let t0 = keys_of(orig.take(done));
            let t1 = keys_of(orig.take(done + 1));
            assert(t1 =~= t0.push(kx));
            assert forall|y: KeyView| s1.contains(y) <==> t1.contains(y) by {
                if s1.contains(y) {
                    let j = choose|j: int| 0 <= j < s1.len() && s1[j] == y;
                    if j < p {
                        assert(s0[j] == y);
                        assert(s0.contains(y));
                        assert(t0.contains(y));
                        let m = choose|m: int| 0 <= m < t0.len() && t0[m] == y;
                        assert(t1[m] == y);
                    } else if j == p {
                        assert(t1[t0.len() as int] == y);
                    } else {
                        assert(s0[j - 1] == y);
                        assert(s0.contains(y));
                        let m = choose|m: int| 0 <= m < t0.len() && t0[m] == y;
                        assert(t1[m] == y);
                    }
                }
                if t1.contains(y) {
                    let m = choose|m: int| 0 <= m < t1.len() && t1[m] == y;
                    if m < t0.len() {
                        assert(t0[m] == y);
                        assert(t0.contains(y));
                        assert(s0.contains(y));
                        let j = choose|j: int| 0 <= j < s0.len() && s0[j] == y;
                        if j < p {
                            assert(s1[j] == y);
                        } else {
                            assert(s1[j + 1] == y);
                        }
                    } else {
                        assert(s1[p as int] == y);
                    }
                }
            }
        }
    }
    proof {
        assert(orig.take(n as int) =~= orig);
    }
    sorted
}

} // verus!
