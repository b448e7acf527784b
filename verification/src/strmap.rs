//! A finite map from strings to strings, kept as a list of distinct keys.
use vstd::prelude::*;
use crate::text::str_eq;

verus! {

/// The map that inserting each pair in turn produces (a later pair for the
/// same key replaces an earlier one).
pub open spec fn map_of(ps: Seq<(Seq<char>, Seq<char>)>) -> Map<Seq<char>, Seq<char>>
    decreases ps.len(),
{
    if ps.len() == 0 {
        Map::empty()
    } else {
        map_of(ps.drop_last()).insert(ps.last().0, ps.last().1)
    }
}

/// The characters of each entry.
pub open spec fn pair_views(es: Seq<(String, String)>) -> Seq<(Seq<char>, Seq<char>)> {
    es.map_values(|e: (String, String)| (e.0@, e.1@))
}

/// No key occurs twice.
pub open spec fn keys_distinct(ps: Seq<(Seq<char>, Seq<char>)>) -> bool {
    forall|i: int, j: int| 0 <= i < j < ps.len() ==> ps[i].0 != ps[j].0
}

/// The keys of `map_of(ps)` are those of the pairs, and a key's value is that
/// of its last pair.
pub proof fn lemma_map_of(ps: Seq<(Seq<char>, Seq<char>)>)
    ensures
        map_of(ps).dom().finite(),
        forall|k: Seq<char>|
            map_of(ps).dom().contains(k) <==> exists|i: int| 0 <= i < ps.len() && ps[i].0 == k,
        forall|i: int|
            0 <= i < ps.len() && (forall|j: int| i < j < ps.len() ==> ps[j].0 != ps[i].0) ==> map_of(
                ps,
            )[ps[i].0] == ps[i].1,
    decreases ps.len(),
{
    if ps.len() > 0 {
        let q = ps.drop_last();
        lemma_map_of(q);
        assert forall|k: Seq<char>|
            map_of(ps).dom().contains(k) <==> exists|i: int| 0 <= i < ps.len() && ps[i].0 == k by {
            if map_of(ps).dom().contains(k) && k != ps.last().0 {
                let i = choose|i: int| 0 <= i < q.len() && q[i].0 == k;
                assert(ps[i].0 == k);
            }
            if exists|i: int| 0 <= i < ps.len() && ps[i].0 == k {
                let i = choose|i: int| 0 <= i < ps.len() && ps[i].0 == k;
                if i < q.len() {
                    assert(q[i].0 == k);
                }
            }
        }
        assert forall|i: int|
            0 <= i < ps.len() && (forall|j: int| i < j < ps.len() ==> ps[j].0 != ps[i].0) implies map_of(
            ps,
        )[ps[i].0] == ps[i].1 by {
            if i < q.len() {
                assert(q[i] == ps[i]);
                assert(ps[ps.len() - 1].0 != ps[i].0);
            }
        }
    }
}

/// The pairs of `ps` whose key is not `k`, in order.
pub open spec fn drop_key(ps: Seq<(Seq<char>, Seq<char>)>, k: Seq<char>) -> Seq<(Seq<char>, Seq<char>)>
    decreases ps.len(),
{
    if ps.len() == 0 {
        ps
    } else {
        let r = drop_key(ps.drop_last(), k);
        if ps.last().0 != k {
            r.push(ps.last())
        } else {
            r
        }
    }
}

/// Holds of the keys of `m` whose value is `v`.
pub open spec fn value_is(m: Map<Seq<char>, Seq<char>>, v: Seq<char>) -> spec_fn(Seq<char>) -> bool {
    |key: Seq<char>| m[key] == v
}

/// The number of keys of `m` whose value is `v`.
pub open spec fn count_of(m: Map<Seq<char>, Seq<char>>, v: Seq<char>) -> nat {
    m.dom().filter(value_is(m, v)).len()
}

/// With distinct keys, each pair's value is the map's value for its key.
pub proof fn lemma_map_of_distinct(ps: Seq<(Seq<char>, Seq<char>)>)
    requires
        keys_distinct(ps),
    ensures
        forall|i: int| 0 <= i < ps.len() ==> map_of(ps)[#[trigger] ps[i].0] == ps[i].1,
{
    lemma_map_of(ps);
    assert forall|i: int| 0 <= i < ps.len() implies map_of(ps)[#[trigger] ps[i].0] == ps[i].1 by {
        assert(forall|j: int| i < j < ps.len() ==> ps[j].0 != ps[i].0);
    }
}

/// A string-to-string map whose keys are distinct (as a `HashMap` has them).
#[derive(Debug)]
pub struct StrMap {
    entries: Vec<(String, String)>,
}

impl View for StrMap {
    type V = Map<Seq<char>, Seq<char>>;

    closed spec fn view(&self) -> Map<Seq<char>, Seq<char>> {
        map_of(pair_views(self.entries@))
    }
}

impl StrMap {
    #[verifier::type_invariant]
    closed spec fn distinct(&self) -> bool {
        keys_distinct(pair_views(self.entries@))
    }

    /// An empty map.
    pub fn new() -> (r: StrMap)
        ensures
            r@ == Map::<Seq<char>, Seq<char>>::empty(),
    {
        let r = StrMap { entries: Vec::new() };
        assert(r@ =~= Map::<Seq<char>, Seq<char>>::empty());
        r
    }

    /// Position of the entry for `k`, if any.
    fn position(&self, k: &str) -> (r: Option<usize>)
        ensures
            r matches Some(i) ==> i < self.entries@.len() && self.entries@[i as int].0@ == k@,
            r is None ==> forall|i: int|
                0 <= i < self.entries@.len() ==> self.entries@[i].0@ != k@,
    {
        let mut i: usize = 0;
        while i < self.entries.len()
            invariant
                i <= self.entries@.len(),
                forall|j: int| 0 <= j < i ==> self.entries@[j].0@ != k@,
            decreases self.entries@.len() - i,
        {
            if str_eq(self.entries[i].0.as_str(), k) {
                return Some(i);
            }
            i = i + 1;
        }
        None
    }

    /// The value stored for `k`.
    pub fn get(&self, k: &str) -> (r: Option<&str>)
        ensures
            r matches Some(v) ==> self@.dom().contains(k@) && v@ == self@[k@],
            r is None ==> !self@.dom().contains(k@),
    {
        proof {
            use_type_invariant(self);
            lemma_map_of(pair_views(self.entries@));
        }
        match self.position(k) {
            Some(i) => {
                proof {
                    let ps = pair_views(self.entries@);
                    assert(ps[i as int].0 == k@);
                }
                Some(self.entries[i].1.as_str())
            },
            None => {
                proof {
                    let ps = pair_views(self.entries@);
                    assert forall|i: int| 0 <= i < ps.len() implies ps[i].0 != k@ by {
                        assert(ps[i].0 == self.entries@[i].0@);
                    }
                }
                None
            },
        }
    }

    /// Sets the value for `k`, replacing any earlier one.
    pub fn insert(&mut self, k: String, v: String)
        ensures
            final(self)@ == old(self)@.insert(k@, v@),
    {
        proof {
            use_type_invariant(&*self);
            lemma_map_of(pair_views(self.entries@));
        }
        let ghost ps = pair_views(self.entries@);
        match self.position(k.as_str()) {
            Some(i) => {
                let ghost kv = k@;
                let ghost vv = v@;
                proof {
                    let qs = ps.update(i as int, (kv, vv));
                    assert(keys_distinct(qs)) by {
                        assert forall|a: int, b: int| 0 <= a < b < qs.len() implies qs[a].0
                            != qs[b].0 by {
                            assert(ps[a].0 == self.entries@[a].0@);
                            assert(ps[b].0 == self.entries@[b].0@);
                        }
                    }
                    lemma_map_of(qs);
                    assert forall|key: Seq<char>|
                        map_of(qs).dom().contains(key) == map_of(ps).insert(kv, vv).dom().contains(
                            key,
                        ) by {
                        if key != kv {
                            if map_of(qs).dom().contains(key) {
                                let j = choose|j: int| 0 <= j < qs.len() && qs[j].0 == key;
                                assert(ps[j].0 == key);
                            }
                            if map_of(ps).dom().contains(key) {
                                let j = choose|j: int| 0 <= j < ps.len() && ps[j].0 == key;
                                assert(qs[j].0 == key);
                            }
                        } else {
                            assert(qs[i as int].0 == key);
                        }
                    }
                    assert forall|key: Seq<char>|
                        map_of(qs).dom().contains(key) implies map_of(qs)[key] == map_of(
                        ps,
                    ).insert(kv, vv)[key] by {
                        let j = choose|j: int| 0 <= j < qs.len() && qs[j].0 == key;
                        lemma_map_of_distinct(qs);
                        lemma_map_of_distinct(ps);
                        assert(map_of(qs)[qs[j].0] == qs[j].1);
                        assert(ps[i as int].0 == self.entries@[i as int].0@);
                        if j != i {
                            assert(qs[j] == ps[j]);
                            assert(ps[j].0 == key);
                            assert(ps[j].0 != ps[i as int].0);
                            assert(map_of(ps)[ps[j].0] == ps[j].1);
                        }
                    }
                    assert(map_of(qs) =~= map_of(ps).insert(kv, vv));
                }
                let mut es: Vec<(String, String)> = Vec::new();
                std::mem::swap(&mut es, &mut self.entries);
                es.set(i, (k, v));
                proof {
                    assert(pair_views(es@) =~= ps.update(i as int, (kv, vv)));
                }
                self.entries = es;
            },
            None => {
                let ghost kv = k@;
                let ghost vv = v@;
                proof {
                    let qs = ps.push((kv, vv));
                    assert(qs.drop_last() =~= ps);
                    assert(keys_distinct(qs)) by {
                        assert forall|a: int, b: int| 0 <= a < b < qs.len() implies qs[a].0
                            != qs[b].0 by {
                            assert(ps[a].0 == self.entries@[a].0@);
                            if b < ps.len() {
                                assert(ps[b].0 == self.entries@[b].0@);
                            }
                        }
                    }
                }
                let mut es: Vec<(String, String)> = Vec::new();
                std::mem::swap(&mut es, &mut self.entries);
                es.push((k, v));
                proof {
                    assert(pair_views(es@) =~= ps.push((kv, vv)));
                }
                self.entries = es;
            },
        }
    }

    /// Removes the entry for `k`, if any.
    pub fn remove(&mut self, k: &str)
        ensures
            final(self)@ == old(self)@.remove(k@),
    {
        proof {
            use_type_invariant(&*self);
        }
        let ghost ps = pair_views(self.entries@);
        let mut es: Vec<(String, String)> = Vec::new();
        let mut i: usize = 0;
        while i < self.entries.len()
            invariant
                i <= self.entries@.len(),
                ps == pair_views(self.entries@),
                keys_distinct(ps),
                pair_views(es@) == drop_key(ps.take(i as int), k@),
            decreases self.entries@.len() - i,
        {
            proof {
                assert(ps.take(i + 1).drop_last() =~= ps.take(i as int));
                assert(ps[i as int].0 == self.entries@[i as int].0@);
            }
            if !str_eq(self.entries[i].0.as_str(), k) {
                let e = (self.entries[i].0.clone(), self.entries[i].1.clone());
                es.push(e);
                assert(pair_views(es@) =~= pair_views(es@.drop_last()).push(ps[i as int]));
            }
            i = i + 1;
        }
        proof {
            assert(ps.take(ps.len() as int) =~= ps);
            lemma_drop_key(ps, k@);
        }
        self.entries = es;
    }

    /// The number of keys whose value is `v`.
    pub fn count_value(&self, v: &str) -> (r: usize)
        ensures
            r == count_of(self@, v@),
    {
        proof {
            use_type_invariant(self);
        }
        let ghost ps = pair_views(self.entries@);
        let mut n: usize = 0;
        let mut i: usize = 0;
        proof {
            assert(map_of(ps.take(0)) =~= Map::<Seq<char>, Seq<char>>::empty());
            assert(map_of(ps.take(0)).dom().filter(value_is(map_of(ps.take(0)), v@))
                =~= Set::<Seq<char>>::empty());
        }
        while i < self.entries.len()
            invariant
                i <= self.entries@.len(),
                ps == pair_views(self.entries@),
                keys_distinct(ps),
                n <= i,
                n == count_of(map_of(ps.take(i as int)), v@),
            decreases self.entries@.len() - i,
        {
            proof {
                lemma_count_step(ps, i as int, v@);
                assert(ps[i as int].1 == self.entries@[i as int].1@);
            }
            if str_eq(self.entries[i].1.as_str(), v) {
                n = n + 1;
            }
            i = i + 1;
        }
        proof {
            assert(ps.take(ps.len() as int) =~= ps);
        }
        n
    }

    /// The entries, in the map's internal order.
    pub fn entries(&self) -> (r: &Vec<(String, String)>)
        ensures
            map_of(pair_views(r@)) == self@,
            keys_distinct(pair_views(r@)),
    {
        proof {
            use_type_invariant(self);
        }
        &self.entries
    }
}

proof fn lemma_drop_key(ps: Seq<(Seq<char>, Seq<char>)>, k: Seq<char>)
    requires
        keys_distinct(ps),
    ensures
        map_of(drop_key(ps, k)) == map_of(ps).remove(k),
        keys_distinct(drop_key(ps, k)),
        forall|j: int|
            0 <= j < drop_key(ps, k).len() ==> exists|i: int|
                0 <= i < ps.len() && ps[i] == #[trigger] drop_key(ps, k)[j],
    decreases ps.len(),
{
    if ps.len() > 0 {
        let q = ps.drop_last();
        assert(keys_distinct(q));
        lemma_drop_key(q, k);
        let r = drop_key(q, k);
        lemma_map_of(q);
        if ps.last().0 != k {
            let rr = r.push(ps.last());
            assert(rr.drop_last() =~= r);
            assert(map_of(rr) == map_of(r).insert(ps.last().0, ps.last().1));
            assert(map_of(ps) == map_of(q).insert(ps.last().0, ps.last().1));
            assert(map_of(rr) =~= map_of(ps).remove(k));
            assert forall|a: int, b: int| 0 <= a < b < rr.len() implies rr[a].0 != rr[b].0 by {
                if b == r.len() {
                    let j = choose|j: int| 0 <= j < q.len() && q[j] == #[trigger] r[a];
                    assert(ps[j] == q[j]);
                }
            }
            assert forall|j: int| 0 <= j < rr.len() implies exists|i: int|
                0 <= i < ps.len() && ps[i] == #[trigger] rr[j] by {
                if j < r.len() {
                    let i = choose|i: int| 0 <= i < q.len() && q[i] == #[trigger] r[j];
                    assert(ps[i] == q[i]);
                } else {
                    assert(ps[ps.len() - 1] == rr[j]);
                }
            }
        } else {
            assert(!map_of(q).dom().contains(k)) by {
                if map_of(q).dom().contains(k) {
                    let j = choose|j: int| 0 <= j < q.len() && q[j].0 == k;
                    assert(ps[j].0 == ps[ps.len() - 1].0);
                }
            }
            assert(map_of(q).remove(k) =~= map_of(ps).remove(k));
            assert forall|j: int| 0 <= j < r.len() implies exists|i: int|
                0 <= i < ps.len() && ps[i] == #[trigger] r[j] by {
                let i = choose|i: int| 0 <= i < q.len() && q[i] == #[trigger] r[j];
                assert(ps[i] == q[i]);
            }
        }
    }
}

proof fn lemma_count_step(ps: Seq<(Seq<char>, Seq<char>)>, i: int, v: Seq<char>)
    requires
        keys_distinct(ps),
        0 <= i < ps.len(),
    ensures
        count_of(map_of(ps.take(i + 1)), v) == count_of(map_of(ps.take(i)), v) + if ps[i].1 == v {
            1int
        } else {
            0int
        },
{
    let a = ps.take(i);
    let b = ps.take(i + 1);
    assert(b.drop_last() =~= a);
    let ma = map_of(a);
    let mb = map_of(b);
    lemma_map_of(a);
    let k = ps[i].0;
    assert(!ma.dom().contains(k)) by {
        if ma.dom().contains(k) {
            let j = choose|j: int| 0 <= j < a.len() && a[j].0 == k;
            assert(ps[j].0 == k);
        }
    }
    assert(b.last() == ps[i]);
    assert(mb == ma.insert(k, ps[i].1));
    let fa = ma.dom().filter(value_is(ma, v));
    let fb = mb.dom().filter(value_is(mb, v));
    assert(fa.finite()) by {
        ma.dom().lemma_len_filter(value_is(ma, v));
    }
    assert(count_of(ma, v) == fa.len());
    assert(count_of(mb, v) == fb.len());
    if ps[i].1 == v {
        assert(fb =~= fa.insert(k));
        assert(!fa.contains(k));
        assert(fa.insert(k).len() == fa.len() + 1);
    } else {
        assert(fb =~= fa);
    }
}

} // verus!
