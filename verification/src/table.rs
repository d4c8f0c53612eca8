//! A string-keyed dictionary with a finite-map model.

use vstd::prelude::*;

use crate::value::{clone_value, Value};

verus! {

broadcast use vstd::seq::group_seq_axioms;

/// A string-keyed dictionary backed by an association list whose keys
/// are pairwise distinct; its model is a `Map` from character sequences
/// to the values' models.  Node parameters, successor tables and the
/// shared store are all instances of it.
pub struct Table<V> {
    entries: Vec<(String, V)>,
}

impl<V: View> Table<V> {
    /// The key/value entries, in insertion order.
    pub closed spec fn kvs(&self) -> Seq<(String, V)> {
        self.entries@
    }

    /// Keys are pairwise distinct (compared as character sequences).
    pub open spec fn wf(&self) -> bool {
        forall|i: int, j: int|
            0 <= i < j < self.kvs().len()
                ==> #[trigger] self.kvs()[i].0@ != #[trigger] self.kvs()[j].0@
    }

    /// Whether some entry has key `k`.
    pub open spec fn spec_contains(&self, k: Seq<char>) -> bool {
        exists|i: int| 0 <= i < self.kvs().len() && #[trigger] self.kvs()[i].0@ == k
    }

    /// The position of the entry with key `k`.
    pub open spec fn spec_index_of(&self, k: Seq<char>) -> int {
        choose|i: int| 0 <= i < self.kvs().len() && #[trigger] self.kvs()[i].0@ == k
    }

    /// With distinct keys, the entry holding `k` is unique.
    pub proof fn lemma_index_unique(&self, k: Seq<char>)
        requires
            self.wf(),
            self.spec_contains(k),
        ensures
            0 <= self.spec_index_of(k) < self.kvs().len(),
            self.kvs()[self.spec_index_of(k)].0@ == k,
            forall|j: int|
                0 <= j < self.kvs().len() && #[trigger] self.kvs()[j].0@ == k ==> j
                    == self.spec_index_of(k),
    {
        let w = self.spec_index_of(k);
        assert(0 <= w < self.kvs().len() && self.kvs()[w].0@ == k);
    }
}

impl<V: View> View for Table<V> {
    type V = Map<Seq<char>, V::V>;

    open spec fn view(&self) -> Map<Seq<char>, V::V> {
        Map::new(
            |k: Seq<char>| self.spec_contains(k),
            |k: Seq<char>| self.kvs()[self.spec_index_of(k)].1@,
        )
    }
}

impl<V: View> Table<V> {
    /// An empty dictionary.
    pub fn new() -> (r: Self)
        ensures
            r.wf(),
            r@ == Map::<Seq<char>, V::V>::empty(),
            r.kvs().len() == 0,
    {
        let r = Table { entries: Vec::new() };
        proof {
            assert(r@ =~= Map::<Seq<char>, V::V>::empty());
        }
        r
    }

    /// How many entries the dictionary holds.
    pub fn len(&self) -> (r: usize)
        ensures
            r == self.kvs().len(),
    {
        self.entries.len()
    }

    /// Whether the dictionary holds no entry.
    pub fn is_empty(&self) -> (r: bool)
        ensures
            r == (self.kvs().len() == 0),
            r == (self@ =~= Map::<Seq<char>, V::V>::empty()),
    {
        proof {
            if self.kvs().len() == 0 {
                assert(self@ =~= Map::<Seq<char>, V::V>::empty());
            } else {
                assert(self.spec_contains(self.kvs()[0].0@));
                assert(self@.dom().contains(self.kvs()[0].0@));
            }
        }
        self.entries.len() == 0
    }

    /// The key of the entry at position `i`.
    pub fn key_at(&self, i: usize) -> (r: &String)
        requires
            i < self.kvs().len(),
        ensures
            r@ == self.kvs()[i as int].0@,
    {
        &self.entries[i].0
    }

    /// The value of the entry at position `i`.
    pub fn val_at(&self, i: usize) -> (r: &V)
        requires
            i < self.kvs().len(),
        ensures
            r == self.kvs()[i as int].1,
    {
        &self.entries[i].1
    }

    /// The position of the entry whose key is `key`, if any.
    #[verifier::loop_isolation(false)]
    fn find(&self, key: &String) -> (r: Option<usize>)
        requires
            self.wf(),
        ensures
            match r {
                Some(i) => i < self.kvs().len() && self.kvs()[i as int].0@ == key@,
                None => !self.spec_contains(key@),
            },
    {
        let mut i: usize = 0;
        while i < self.entries.len()
            invariant
                i <= self.entries.len(),
                forall|j: int| 0 <= j < i as int ==> #[trigger] self.kvs()[j].0@ != key@,
            decreases self.entries.len() - i,
        {
            if self.entries[i].0 == *key {
                return Some(i);
            }
            i += 1;
        }
        None
    }

    /// Whether `key` is present.
    pub fn contains_key(&self, key: &String) -> (r: bool)
        requires
            self.wf(),
        ensures
            r == self@.contains_key(key@),
    {
        match self.find(key) {
            Some(_) => true,
            None => false,
        }
    }

    /// The value stored under `key`, if any.
    pub fn get(&self, key: &String) -> (r: Option<&V>)
        requires
            self.wf(),
        ensures
            match r {
                Some(v) => self@.contains_key(key@) && v@ == self@[key@],
                None => !self@.contains_key(key@),
            },
    {
        match self.find(key) {
            Some(i) => {
                proof {
                    self.lemma_index_unique(key@);
                }
                Some(&self.entries[i].1)
            },
            None => None,
        }
    }

    /// Map `key` to `value`, replacing any earlier binding; reports
    /// whether a binding was replaced.
    pub fn insert(&mut self, key: String, value: V) -> (replaced: bool)
        requires
            old(self).wf(),
        ensures
            final(self).wf(),
            final(self)@ == old(self)@.insert(key@, value@),
            replaced == old(self)@.contains_key(key@),
    {
        let found = self.find(&key);
        match found {
            Some(i) => {
                proof {
                    old(self).lemma_index_unique(key@);
                }
                self.entries.remove(i);
                self.entries.push((key, value));
                proof {
                    let olds = old(self).kvs();
                    let news = self.kvs();
                    let n = olds.len();
                    assert(news.len() == n);
                    assert forall|p: int, q: int| 0 <= p < q < n implies #[trigger] news[p].0@
                        != #[trigger] news[q].0@ by {
                        if q < n - 1 {
                            let p0 = if p < i { p } else { p + 1 };
                            let q0 = if q < i { q } else { q + 1 };
                            assert(news[p] == olds[p0] && news[q] == olds[q0]);
                        } else {
                            let p0 = if p < i { p } else { p + 1 };
                            assert(news[p] == olds[p0]);
                            assert(p0 != i);
                        }
                    }
                    assert(final(self)@ =~= old(self)@.insert(key@, value@)) by {
                        assert forall|k: Seq<char>| true implies (self.spec_contains(k) == (k
                            == key@ || old(self).spec_contains(k))) by {
                            if self.spec_contains(k) {
                                let j = choose|j: int|
                                    0 <= j < news.len() && #[trigger] news[j].0@ == k;
                                if j < n - 1 {
                                    let j0 = if j < i { j } else { j + 1 };
                                    assert(olds[j0] == news[j]);
                                    assert(old(self).spec_contains(k));
                                }
                            }
                            if k == key@ {
                                assert(news[n - 1].0@ == k);
                                assert(self.spec_contains(k));
                            } else if old(self).spec_contains(k) {
                                let j0 = choose|j0: int|
                                    0 <= j0 < olds.len() && #[trigger] olds[j0].0@ == k;
                                assert(j0 != i);
                                let j = if j0 < i { j0 } else { j0 - 1 };
                                assert(news[j] == olds[j0]);
                                assert(self.spec_contains(k));
                            }
                        }
                        assert forall|k: Seq<char>| self.spec_contains(k) implies self@[k] == old(
                            self,
                        )@.insert(key@, value@)[k] by {
                            self.lemma_index_unique(k);
                            let j = self.spec_index_of(k);
                            if k == key@ {
                                assert(news[n - 1].0@ == k);
                                assert(j == n - 1);
                            } else {
                                old(self).lemma_index_unique(k);
                                let j0 = if j < i { j } else { j + 1 };
                                assert(news[j] == olds[j0]);
                                assert(j0 == old(self).spec_index_of(k));
                            }
                        }
                    }
                }
                true
            },
            None => {
                self.entries.push((key, value));
                proof {
                    let olds = old(self).kvs();
                    let news = self.kvs();
                    let n = olds.len();
                    assert forall|p: int, q: int| 0 <= p < q < news.len() implies #[trigger] news[p].0@ != #[trigger] news[q].0@ by {
                        if q == n {
                            assert(news[p] == olds[p]);
                            assert(!old(self).spec_contains(key@));
                        }
                    }
                    assert(final(self)@ =~= old(self)@.insert(key@, value@)) by {
                        assert forall|k: Seq<char>| true implies (self.spec_contains(k) == (k
                            == key@ || old(self).spec_contains(k))) by {
                            if self.spec_contains(k) {
                                let j = choose|j: int|
                                    0 <= j < news.len() && #[trigger] news[j].0@ == k;
                                if j < n {
                                    assert(olds[j] == news[j]);
                                }
                            }
                            if k == key@ {
                                assert(news[n as int].0@ == k);
                            } else if old(self).spec_contains(k) {
                                let j0 = choose|j0: int|
                                    0 <= j0 < olds.len() && #[trigger] olds[j0].0@ == k;
                                assert(news[j0] == olds[j0]);
                            }
                        }
                        assert forall|k: Seq<char>| self.spec_contains(k) implies self@[k] == old(
                            self,
                        )@.insert(key@, value@)[k] by {
                            self.lemma_index_unique(k);
                            let j = self.spec_index_of(k);
                            if k == key@ {
                                assert(j == n);
                            } else {
                                old(self).lemma_index_unique(k);
                                assert(news[j] == olds[j]);
                                assert(j == old(self).spec_index_of(k));
                            }
                        }
                    }
                }
                false
            },
        }
    }

    /// Drop the binding for `key`; reports whether one was present.
    pub fn remove(&mut self, key: &String) -> (r: bool)
        requires
            old(self).wf(),
        ensures
            final(self).wf(),
            final(self)@ == old(self)@.remove(key@),
            r == old(self)@.contains_key(key@),
    {
        let found = self.find(key);
        match found {
            Some(i) => {
                proof {
                    old(self).lemma_index_unique(key@);
                }
                self.entries.remove(i);
                proof {
                    let olds = old(self).kvs();
                    let news = self.kvs();
                    let n = olds.len();
                    assert forall|p: int, q: int| 0 <= p < q < news.len() implies #[trigger] news[p].0@ != #[trigger] news[q].0@ by {
                        let p0 = if p < i { p } else { p + 1 };
                        let q0 = if q < i { q } else { q + 1 };
                        assert(news[p] == olds[p0] && news[q] == olds[q0]);
                    }
                    assert(final(self)@ =~= old(self)@.remove(key@)) by {
                        assert forall|k: Seq<char>| true implies (self.spec_contains(k) == (k
                            != key@ && old(self).spec_contains(k))) by {
                            if self.spec_contains(k) {
                                let j = choose|j: int|
                                    0 <= j < news.len() && #[trigger] news[j].0@ == k;
                                let j0 = if j < i { j } else { j + 1 };
                                assert(olds[j0] == news[j]);
                                assert(j0 != i ==> olds[j0].0@ != key@);
                            }
                            if k != key@ && old(self).spec_contains(k) {
                                let j0 = choose|j0: int|
                                    0 <= j0 < olds.len() && #[trigger] olds[j0].0@ == k;
                                assert(j0 != i);
                                let j = if j0 < i { j0 } else { j0 - 1 };
                                assert(news[j] == olds[j0]);
                            }
                        }
                        assert forall|k: Seq<char>| self.spec_contains(k) implies self@[k] == old(
                            self,
                        )@.remove(key@)[k] by {
                            self.lemma_index_unique(k);
                            old(self).lemma_index_unique(k);
                            let j = self.spec_index_of(k);
                            let j0 = if j < i { j } else { j + 1 };
                            assert(news[j] == olds[j0]);
                            assert(j0 == old(self).spec_index_of(k));
                        }
                    }
                }
                true
            },
            None => {
                proof {
                    assert(final(self)@ =~= old(self)@.remove(key@));
                }
                false
            },
        }
    }

    /// Entry by entry, `other` holds the same keys and equal values.
    pub open spec fn kvs_equal(&self, other: &Self) -> bool {
        &&& self.kvs().len() == other.kvs().len()
        &&& forall|i: int|
            0 <= i < self.kvs().len() ==> #[trigger] self.kvs()[i].0@ == other.kvs()[i].0@
                && self.kvs()[i].1@ == other.kvs()[i].1@
    }

    /// Tables with entrywise equal keys and values have equal models.
    pub proof fn lemma_kvs_equal_view(&self, other: &Self)
        requires
            self.wf(),
            self.kvs_equal(other),
        ensures
            other.wf(),
            self@ == other@,
    {
        assert forall|i: int, j: int| 0 <= i < j < other.kvs().len() implies #[trigger] other.kvs()[i].0@
            != #[trigger] other.kvs()[j].0@ by {
            assert(other.kvs()[i].0@ == self.kvs()[i].0@);
            assert(other.kvs()[j].0@ == self.kvs()[j].0@);
        }
        assert forall|k: Seq<char>| #[trigger] self.spec_contains(k) == other.spec_contains(
            k,
        ) by {
            if self.spec_contains(k) {
                let i = choose|i: int|
                    0 <= i < self.kvs().len() && #[trigger] self.kvs()[i].0@ == k;
                assert(other.kvs()[i].0@ == k);
            }
            if other.spec_contains(k) {
                let i = choose|i: int|
                    0 <= i < other.kvs().len() && #[trigger] other.kvs()[i].0@ == k;
                assert(self.kvs()[i].0@ == k);
            }
        }
        assert forall|k: Seq<char>| self.spec_contains(k) implies self@[k] == other@[k] by {
            self.lemma_index_unique(k);
            other.lemma_index_unique(k);
            let i = self.spec_index_of(k);
            assert(other.kvs()[i].0@ == k);
        }
        assert(self@ =~= other@);
    }

    /// All keys, in entry order.
    #[verifier::loop_isolation(false)]
    pub fn keys(&self) -> (r: Vec<String>)
        ensures
            r@.len() == self.kvs().len(),
            forall|i: int| 0 <= i < r@.len() ==> r@[i]@ == #[trigger] self.kvs()[i].0@,
    {
        let mut out: Vec<String> = Vec::new();
        let mut i: usize = 0;
        while i < self.entries.len()
            invariant
                i <= self.entries.len(),
                out@.len() == i as int,
                forall|j: int| 0 <= j < i as int ==> out@[j]@ == #[trigger] self.kvs()[j].0@,
            decreases self.entries.len() - i,
        {
            out.push(self.entries[i].0.clone());
            i += 1;
        }
        out
    }
}

impl Table<Value> {
    /// A deep copy with the same entries.
    #[verifier::loop_isolation(false)]
    pub fn duplicate(&self) -> (r: Self)
        ensures
            self.kvs_equal(&r),
            self.wf() ==> r.wf() && r@ == self@,
    {
        let mut out: Vec<(String, Value)> = Vec::new();
        let mut i: usize = 0;
        while i < self.entries.len()
            invariant
                i <= self.entries.len(),
                out@.len() == i as int,
                forall|j: int|
                    0 <= j < i as int ==> #[trigger] out@[j].0@ == self.kvs()[j].0@ && out@[j].1@
                        == self.kvs()[j].1@,
            decreases self.entries.len() - i,
        {
            let k = self.entries[i].0.clone();
            let v = clone_value(&self.entries[i].1);
            out.push((k, v));
            i += 1;
        }
        let r = Table { entries: out };
        proof {
            if self.wf() {
                self.lemma_kvs_equal_view(&r);
            }
        }
        r
    }
}

} // verus!
