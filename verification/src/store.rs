//! The shared store and node parameter maps.

use vstd::prelude::*;

use crate::table::Table;
use crate::value::{clone_value, FromValue, ValModel, Value};

verus! {

broadcast use vstd::seq::group_seq_axioms;

/// The key/value parameters attached to a node or flow.
pub type ParamMap = Table<Value>;

/// The mutable key/value state one flow invocation threads through every
/// node it runs: any node's post phase may write it and any node's
/// prepare phase may read it.  The store itself is owned data with
/// exclusive mutation; an embedding layer that fans runs out
/// concurrently shares one store by putting it behind its own lock.
pub struct SharedStore {
    data: Table<Value>,
}

impl SharedStore {
    /// Keys inside are pairwise distinct.
    pub closed spec fn wf(&self) -> bool {
        self.data.wf()
    }

    /// An empty store.
    pub fn new() -> (r: Self)
        ensures
            r.wf(),
            r@ == Map::<Seq<char>, ValModel>::empty(),
    {
        SharedStore { data: Table::new() }
    }

    /// A copy of the value stored under `key`, or `None` when the key is
    /// absent.
    pub fn get(&self, key: &str) -> (r: Option<Value>)
        requires
            self.wf(),
        ensures
            match r {
                Some(v) => self@.contains_key(key@) && v@ == self@[key@],
                None => !self@.contains_key(key@),
            },
    {
        let k: String = key.to_owned();
        match self.data.get(&k) {
            Some(v) => Some(clone_value(v)),
            None => None,
        }
    }

    /// The payload of the value stored under `key`, extracted at the
    /// requested type; `None` when the key is absent or the value holds
    /// a different type.
    pub fn get_typed<T: FromValue>(&self, key: &str) -> (r: Option<T>)
        requires
            self.wf(),
        ensures
            match r {
                Some(t) => self@.contains_key(key@) && T::value_matches(self@[key@])
                    && T::extracted(self@[key@], t),
                None => !self@.contains_key(key@) || !T::value_matches(self@[key@]),
            },
    {
        let k: String = key.to_owned();
        match self.data.get(&k) {
            Some(v) => T::from_value(v),
            None => None,
        }
    }

    /// Store `value` under `key`, replacing any earlier value.
    pub fn set(&mut self, key: &str, value: Value)
        requires
            old(self).wf(),
        ensures
            final(self).wf(),
            final(self)@ == old(self)@.insert(key@, value@),
    {
        let k: String = key.to_owned();
        self.data.insert(k, value);
    }

    /// Drop the value stored under `key`; reports whether one was there.
    pub fn remove(&mut self, key: &str) -> (r: bool)
        requires
            old(self).wf(),
        ensures
            final(self).wf(),
            final(self)@ == old(self)@.remove(key@),
            r == old(self)@.contains_key(key@),
    {
        let k: String = key.to_owned();
        self.data.remove(&k)
    }

    /// Whether `key` holds a value.
    pub fn contains_key(&self, key: &str) -> (r: bool)
        requires
            self.wf(),
        ensures
            r == self@.contains_key(key@),
    {
        let k: String = key.to_owned();
        self.data.contains_key(&k)
    }

    /// All keys currently stored: each returned key is in the store,
    /// every stored key is returned, and no key is returned twice.
    pub fn keys(&self) -> (r: Vec<String>)
        requires
            self.wf(),
        ensures
            forall|i: int| 0 <= i < r@.len() ==> self@.contains_key(#[trigger] r@[i]@),
            forall|k: Seq<char>| self@.contains_key(k) ==> exists|i: int|
                0 <= i < r@.len() && #[trigger] r@[i]@ == k,
            forall|i: int, j: int|
                0 <= i < j < r@.len() ==> #[trigger] r@[i]@ != #[trigger] r@[j]@,
    {
        let r = self.data.keys();
        proof {
            assert forall|i: int| 0 <= i < r@.len() implies self@.contains_key(
                #[trigger] r@[i]@,
            ) by {
                assert(self.data.kvs()[i].0@ == r@[i]@);
                assert(self.data.spec_contains(r@[i]@));
            }
            assert forall|k: Seq<char>| self@.contains_key(k) implies exists|i: int|
                0 <= i < r@.len() && #[trigger] r@[i]@ == k by {
                let j = choose|j: int|
                    0 <= j < self.data.kvs().len() && #[trigger] self.data.kvs()[j].0@ == k;
                assert(r@[j]@ == k);
            }
            assert forall|i: int, j: int| 0 <= i < j < r@.len() implies #[trigger] r@[i]@
                != #[trigger] r@[j]@ by {
                assert(r@[i]@ == self.data.kvs()[i].0@);
                assert(r@[j]@ == self.data.kvs()[j].0@);
            }
        }
        r
    }
}

impl View for SharedStore {
    type V = Map<Seq<char>, ValModel>;

    closed spec fn view(&self) -> Map<Seq<char>, ValModel> {
        self.data@
    }
}

impl Clone for SharedStore {
    /// A deep copy holding the same keys and equal values.
    fn clone(&self) -> (r: Self)
        ensures
            self.wf() ==> r.wf() && r@ == self@,
    {
        SharedStore { data: self.data.duplicate() }
    }
}

/// A deep copy of a parameter map, with an equal model.
pub fn dup_params(params: &ParamMap) -> (r: ParamMap)
    requires
        params.wf(),
    ensures
        r.wf(),
        r@ == params@,
{
    params.duplicate()
}

/// The map a sequence of key/value pairs builds up, later pairs
/// overriding earlier ones with the same key.
pub open spec fn map_of_pairs(s: Seq<(String, Value)>) -> Map<Seq<char>, ValModel>
    decreases s.len(),
{
    if s.len() == 0 {
        Map::empty()
    } else {
        map_of_pairs(s.drop_last()).insert(s.last().0@, s.last().1@)
    }
}

/// Build a parameter map from key/value pairs, later pairs overriding
/// earlier ones with the same key.
#[verifier::loop_isolation(false)]
pub fn params_from_pairs(pairs: &Vec<(String, Value)>) -> (r: ParamMap)
    ensures
        r.wf(),
        r@ == map_of_pairs(pairs@),
{
    let mut out: ParamMap = Table::new();
    let mut i: usize = 0;
    proof {
        assert(pairs@.subrange(0, 0) =~= Seq::<(String, Value)>::empty());
    }
    while i < pairs.len()
        invariant
            i <= pairs.len(),
            out.wf(),
            out@ == map_of_pairs(pairs@.subrange(0, i as int)),
        decreases pairs.len() - i,
    {
        let key = pairs[i].0.clone();
        let val = clone_value(&pairs[i].1);
        out.insert(key, val);
        proof {
            assert(pairs@.subrange(0, i as int + 1).drop_last() =~= pairs@.subrange(0, i as int));
            assert(pairs@.subrange(0, i as int + 1).last() == pairs@[i as int]);
        }
        i += 1;
    }
    proof {
        assert(pairs@.subrange(0, pairs@.len() as int) =~= pairs@);
    }
    out
}

/// The parameters a batch flow hands one subgraph run: the batch item's
/// own parameters, with the flow's parameters filling the gaps (item
/// keys win, flow keys never override them).
#[verifier::loop_isolation(false)]
pub fn merge_params(item: &ParamMap, base: &ParamMap) -> (r: ParamMap)
    requires
        item.wf(),
        base.wf(),
    ensures
        r.wf(),
        r@ == base@.union_prefer_right(item@),
{
    let n = base.len();
    let mut out: ParamMap = dup_params(item);
    let mut i: usize = 0;
    while i < n
        invariant
            i <= n,
            out.wf(),
            forall|k: Seq<char>| #[trigger] out@.contains_key(k) <==> item@.contains_key(k)
                || exists|j: int| 0 <= j < i as int && #[trigger] base.kvs()[j].0@ == k,
            forall|k: Seq<char>| item@.contains_key(k) ==> out@.contains_key(k) && out@[k]
                == item@[k],
            forall|k: Seq<char>|
                out@.contains_key(k) && !item@.contains_key(k) ==> out@[k] == base@[k],
        decreases n - i,
    {
        let key_ref = base.key_at(i);
        if !out.contains_key(key_ref) {
            let key = key_ref.clone();
            let val = clone_value(base.val_at(i));
            proof {
                base.lemma_index_unique(base.kvs()[i as int].0@);
            }
            out.insert(key, val);
        }
        i += 1;
    }
    proof {
        assert(out@ =~= base@.union_prefer_right(item@)) by {
            assert forall|k: Seq<char>| #[trigger] out@.contains_key(k) == (base@.contains_key(k)
                || item@.contains_key(k)) by {
                if base@.contains_key(k) {
                    let j = choose|j: int|
                        0 <= j < base.kvs().len() && #[trigger] base.kvs()[j].0@ == k;
                    assert(out@.contains_key(k));
                }
            }
        }
    }
    out
}

} // verus!
