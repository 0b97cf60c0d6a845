//! A small map from section names to values, kept as a list of distinct keys.
//!
//! It stands where a `BTreeMap<String, V>` would: the keys are strings, whose
//! ordering Verus has no model of, so the map is a vector of `(key, value)`
//! pairs with the invariant that no key occurs twice. Iteration order is the
//! order in which keys were first inserted.

use vstd::prelude::*;
use crate::text::str_eq;

verus! {

/// The value stored under `k` in a list of distinct pairs.
pub open spec fn value_of<V>(pairs: Seq<(Seq<char>, V)>, k: Seq<char>) -> Option<V>
    decreases pairs.len(),
{
    if pairs.len() == 0 {
        None
    } else if pairs.last().0 == k {
        Some(pairs.last().1)
    } else {
        value_of(pairs.drop_last(), k)
    }
}

/// The pairs with `v` stored under `k`: in place of the value already
/// there, or added last when `k` is new.
pub open spec fn with_value<V>(pairs: Seq<(Seq<char>, V)>, k: Seq<char>, v: V) -> Seq<(Seq<char>, V)> {
    if exists|i: int| 0 <= i < pairs.len() && #[trigger] pairs[i].0 == k {
        let i = choose|i: int| 0 <= i < pairs.len() && #[trigger] pairs[i].0 == k;
        pairs.update(i, (k, v))
    } else {
        pairs.push((k, v))
    }
}

pub open spec fn distinct_keys<V>(pairs: Seq<(Seq<char>, V)>) -> bool {
    forall|i: int, j: int|
        0 <= i < pairs.len() && 0 <= j < pairs.len() && i != j ==> #[trigger] pairs[i].0
            != #[trigger] pairs[j].0
}

/// Section names mapped to values, each name at most once.
pub struct SectionMap<V> {
    entries: Vec<(String, V)>,
}

impl<V> SectionMap<V> {
    /// The stored pairs, keys by their characters, in insertion order.
    pub closed spec fn pairs(&self) -> Seq<(Seq<char>, V)> {
        self.entries@.map_values(|e: (String, V)| (e.0@, e.1))
    }

    #[verifier::type_invariant]
    closed spec fn inv(&self) -> bool {
        distinct_keys(self.pairs())
    }

    /// The value stored under `k`.
    pub open spec fn spec_get(&self, k: Seq<char>) -> Option<V> {
        value_of(self.pairs(), k)
    }

    /// An empty map.
    pub fn new() -> (m: Self)
        ensures
            m.pairs() == Seq::<(Seq<char>, V)>::empty(),
    {
        let m = SectionMap { entries: Vec::new() };
        assert(m.pairs() =~= Seq::<(Seq<char>, V)>::empty());
        m
    }

    /// The number of keys.
    pub fn len(&self) -> (n: usize)
        ensures
            n == self.pairs().len(),
    {
        self.entries.len()
    }

    /// Position of `k` among the stored pairs.
    fn position(&self, k: &str) -> (r: Option<usize>)
        ensures
            r matches Some(i) ==> i < self.pairs().len() && self.pairs()[i as int].0 == k@,
            r is None ==> forall|i: int| 0 <= i < self.pairs().len() ==> self.pairs()[i].0 != k@,
    {
        let n = self.entries.len();
        let mut i: usize = 0;
        while i < n
            invariant
                n == self.entries@.len(),
                n == self.pairs().len(),
                i <= n,
                forall|j: int| 0 <= j < i ==> self.pairs()[j].0 != k@,
            decreases n - i,
        {
            assert(self.pairs()[i as int].0 == self.entries@[i as int].0@);
            if str_eq(self.entries[i].0.as_str(), k) {
                return Some(i);
            }
            i = i + 1;
        }
        None
    }

    /// The `i`th key and value, in insertion order.
    pub fn entry(&self, i: usize) -> (r: (&String, &V))
        requires
            i < self.pairs().len(),
        ensures
            r.0@ == self.pairs()[i as int].0,
            *r.1 == self.pairs()[i as int].1,
    {
        let e = &self.entries[i];
        (&e.0, &e.1)
    }

    /// The value stored under `k`, if any.
    pub fn get(&self, k: &str) -> (r: Option<&V>)
        ensures
            match r {
                Some(v) => self.spec_get(k@) == Some(*v),
                None => self.spec_get(k@) is None,
            },
    {
        proof {
            use_type_invariant(self);
        }
        match self.position(k) {
            Some(i) => {
                proof {
                    lemma_value_of_at(self.pairs(), i as int);
                }
                Some(&self.entries[i].1)
            },
            None => {
                proof {
                    lemma_value_of_absent(self.pairs(), k@);
                }
                None
            },
        }
    }

    /// Stores `v` under `k`, replacing the value already there.
    pub fn insert(&mut self, k: String, v: V)
        ensures
            forall|i: int|
                0 <= i < old(self).pairs().len() && #[trigger] old(self).pairs()[i].0 == k@
                    ==> final(self).pairs() == old(self).pairs().update(i, (k@, v)),
            (forall|i: int|
                0 <= i < old(self).pairs().len() ==> #[trigger] old(self).pairs()[i].0 != k@)
                ==> final(self).pairs() == old(self).pairs().push((k@, v)),
            final(self).pairs() == with_value(old(self).pairs(), k@, v),
            final(self).spec_get(k@) == Some(v),
            forall|q: Seq<char>| q != k@ ==> #[trigger] final(self).spec_get(q) == old(self).spec_get(q),
    {
        proof {
            use_type_invariant(&*self);
        }
        let ghost old_pairs = self.pairs();
        let pos = self.position(k.as_str());
        let mut entries: Vec<(String, V)> = Vec::new();
        std::mem::swap(&mut entries, &mut self.entries);
        assert(entries@.map_values(|e: (String, V)| (e.0@, e.1)) == old_pairs);
        match pos {
            Some(i) => {
                let ghost kv = k@;
                entries.set(i, (k, v));
                proof {
                    let np = entries@.map_values(|e: (String, V)| (e.0@, e.1));
                    assert(np =~= old_pairs.update(i as int, (kv, v)));
                    assert forall|a: int, b: int|
                        0 <= a < np.len() && 0 <= b < np.len() && a != b implies #[trigger] np[a].0
                        != #[trigger] np[b].0 by {
                        assert(np[a].0 == old_pairs[a].0);
                        assert(np[b].0 == old_pairs[b].0);
                    }
                }
                self.entries = entries;
                proof {
                    assert(self.pairs() =~= old_pairs.update(i as int, (kv, v)));
                    assert forall|j: int|
                        0 <= j < old_pairs.len() && #[trigger] old_pairs[j].0 == kv
                            implies self.pairs() == old_pairs.update(j, (kv, v)) by {
                        if j != i {
                            assert(old_pairs[j].0 == old_pairs[i as int].0);
                        }
                    }
                    lemma_value_of_at(self.pairs(), i as int);
                    assert forall|q: Seq<char>| q != kv implies #[trigger] value_of(self.pairs(), q)
                        == value_of(old_pairs, q) by {
                        lemma_value_of_update(old_pairs, i as int, (kv, v), q);
                    }
                }
            },
            None => {
                let ghost kv = k@;
                entries.push((k, v));
                proof {
                    let np = entries@.map_values(|e: (String, V)| (e.0@, e.1));
                    assert(np =~= old_pairs.push((kv, v)));
                    assert forall|a: int, b: int|
                        0 <= a < np.len() && 0 <= b < np.len() && a != b implies #[trigger] np[a].0
                        != #[trigger] np[b].0 by {
                        if a < old_pairs.len() && b < old_pairs.len() {
                            assert(np[a] == old_pairs[a]);
                            assert(np[b] == old_pairs[b]);
                        } else if a < old_pairs.len() {
                            assert(np[a] == old_pairs[a]);
                        } else {
                            assert(np[b] == old_pairs[b]);
                        }
                    }
                }
                self.entries = entries;
                proof {
                    assert(self.pairs() =~= old_pairs.push((kv, v)));
                    assert(self.pairs().drop_last() =~= old_pairs);
                }
            },
        }
    }
}

proof fn lemma_value_of_at<V>(pairs: Seq<(Seq<char>, V)>, i: int)
    requires
        distinct_keys(pairs),
        0 <= i < pairs.len(),
    ensures
        value_of(pairs, pairs[i].0) == Some(pairs[i].1),
    decreases pairs.len(),
{
    if i < pairs.len() - 1 {
        let t = pairs.drop_last();
        assert(pairs.last().0 != pairs[i].0);
        assert(t[i] == pairs[i]);
        lemma_value_of_at(t, i);
    }
}

proof fn lemma_value_of_absent<V>(pairs: Seq<(Seq<char>, V)>, k: Seq<char>)
    requires
        forall|i: int| 0 <= i < pairs.len() ==> pairs[i].0 != k,
    ensures
        value_of(pairs, k) is None,
    decreases pairs.len(),
{
    if pairs.len() > 0 {
        let t = pairs.drop_last();
        assert forall|i: int| 0 <= i < t.len() implies t[i].0 != k by {
            assert(t[i] == pairs[i]);
        }
        lemma_value_of_absent(t, k);
    }
}

proof fn lemma_value_of_update<V>(pairs: Seq<(Seq<char>, V)>, i: int, e: (Seq<char>, V), q: Seq<char>)
    requires
        0 <= i < pairs.len(),
        e.0 == pairs[i].0,
        q != e.0,
    ensures
        value_of(pairs.update(i, e), q) == value_of(pairs, q),
    decreases pairs.len(),
{
    let u = pairs.update(i, e);
    if i == pairs.len() - 1 {
        assert(u.drop_last() =~= pairs.drop_last());
    } else {
        assert(u.drop_last() =~= pairs.drop_last().update(i, e));
        lemma_value_of_update(pairs.drop_last(), i, e, q);
    }
}

} // verus!
