//! A hash map whose keys are never traced.
use vstd::prelude::*;
use std::borrow::Borrow;
use std::collections::hash_map::{Entry, Iter, RandomState};
use std::collections::HashMap;
use std::hash::{BuildHasher, Hash};
use vstd::std_specs::hash::{builds_valid_hashers, contains_borrowed_key, obeys_key_model};
use vstd::std_specs::hash::{into_iter_values, maps_borrowed_key_to_value, borrowed_key_removed};
use vstd::std_specs::hash::{spec_hash_map_iter, spec_values_iter, EntrySpecFns};
use vstd::std_specs::iter::IteratorSpec;
use crate::tracer::{Edge, JSTracer};
use crate::traceable::{JSTraceable, seq_edges, lemma_seq_edges_take, lemma_seq_edges_all_empty};

verus! {

/// A hash map whose keys hold no collector-owned reference: tracing it
/// reports the edges of its values only, and never looks at a key.
///
/// Methods that are not offered here can be reached through `.0`.
#[verifier::reject_recursive_types(S)]
pub struct HashMapTracedValues<K, V, S = RandomState>(pub HashMap<K, V, S>);

impl<K, V, S> View for HashMapTracedValues<K, V, S> {
    type V = Map<K, V>;

    open spec fn view(&self) -> Map<K, V> {
        self.0@
    }
}

/// The values of a hash map, in the order in which it is walked.
pub open spec fn hash_map_values<K, V, S>(m: &HashMap<K, V, S>) -> Seq<V> {
    into_iter_values(spec_values_iter(m))
}

impl<K, V, S> HashMapTracedValues<K, V, S> {
    /// Whether the key type and the hasher behave as vstd's hash map model says.
    pub open spec fn obeys_model() -> bool {
        obeys_key_model::<K>() && builds_valid_hashers::<S>()
    }

    /// The values of the map, in the order in which tracing visits them.
    pub open spec fn values_in_order(&self) -> Seq<V> {
        hash_map_values(&self.0)
    }
}

impl<K, V, S: Default> Default for HashMapTracedValues<K, V, S> {
    fn default() -> (r: Self)
        ensures
            r@ == Map::<K, V>::empty(),
    {
        HashMapTracedValues(HashMap::default())
    }
}

impl<K, V> HashMapTracedValues<K, V, RandomState> {
    /// An empty map.
    pub fn new() -> (r: HashMapTracedValues<K, V, RandomState>)
        ensures
            r@ == Map::<K, V>::empty(),
    {
        HashMapTracedValues(HashMap::new())
    }
}

impl<K, V, S> HashMapTracedValues<K, V, S> {
    /// An iterator over the entries of the map.
    pub fn iter(&self) -> (r: Iter<'_, K, V>)
        requires
            Self::obeys_model(),
        ensures
            r == spec_hash_map_iter(&self.0),
            r.remaining().len() == self@.dom().len(),
            r.remaining().unref().to_set() == self@.kv_pairs(),
    {
        broadcast use vstd::std_specs::hash::group_hash_axioms;

        self.0.iter()
    }

    /// Takes every entry out of the map, which is left empty, and returns
    /// them as a map of their own.
    pub fn drain(&mut self) -> (r: HashMap<K, V, S>) where S: Default
        ensures
            r@ == old(self)@,
            final(self)@ == Map::<K, V>::empty(),
    {
        let mut taken: HashMap<K, V, S> = HashMap::default();
        std::mem::swap(&mut self.0, &mut taken);
        taken
    }

    /// Whether the map has no entry.
    pub fn is_empty(&self) -> (r: bool)
        ensures
            r == self@.is_empty(),
    {
        self.0.is_empty()
    }
}

impl<K, V, S> HashMapTracedValues<K, V, S> where K: Eq + Hash, S: BuildHasher {
    /// Maps `k` to `v`, and returns the value that `k` had before, if any.
    pub fn insert(&mut self, k: K, v: V) -> (r: Option<V>)
        requires
            Self::obeys_model(),
        ensures
            final(self)@ == old(self)@.insert(k, v),
            match r {
                Some(prev) => old(self)@.contains_key(k) && prev == old(self)@[k],
                None => !old(self)@.contains_key(k),
            },
    {
        self.0.insert(k, v)
    }

    /// The value of the key that `k` borrows as, if the map has it.
    pub fn get<Q: ?Sized>(&self, k: &Q) -> (r: Option<&V>) where K: Borrow<Q>, Q: Hash + Eq
        requires
            Self::obeys_model(),
        ensures
            match r {
                Some(v) => maps_borrowed_key_to_value(self@, k, *v),
                None => !contains_borrowed_key(self@, k),
            },
    {
        self.0.get(k)
    }

    /// Whether the map has the key that `k` borrows as.
    pub fn contains_key<Q: ?Sized>(&self, k: &Q) -> (r: bool) where K: Borrow<Q>, Q: Hash + Eq
        requires
            Self::obeys_model(),
        ensures
            r == contains_borrowed_key(self@, k),
    {
        self.0.contains_key(k)
    }

    /// Removes the key that `k` borrows as, and returns its value, if any.
    pub fn remove<Q: ?Sized>(&mut self, k: &Q) -> (r: Option<V>) where K: Borrow<Q>, Q: Hash + Eq
        requires
            Self::obeys_model(),
        ensures
            borrowed_key_removed(old(self)@, final(self)@, k),
            match r {
                Some(v) => maps_borrowed_key_to_value(old(self)@, k, v),
                None => !contains_borrowed_key(old(self)@, k),
            },
    {
        self.0.remove(k)
    }

    /// The entry of `key`, to read, insert, update or remove in place.
    pub fn entry(&mut self, key: K) -> (r: Entry<'_, K, V>)
        requires
            Self::obeys_model(),
        ensures
            r.key() == key,
            r.value() == old(self)@.get(key),
            final(self)@ == match r.final_value() {
                Some(value) => old(self)@.insert(key, value),
                None => old(self)@.remove(key),
            },
    {
        self.0.entry(key)
    }
}

impl<K, V: JSTraceable, S> JSTraceable for HashMapTracedValues<K, V, S> {
    open spec fn obeys_trace_model() -> bool {
        Self::obeys_model() && V::obeys_trace_model()
    }

    open spec fn edges(&self) -> Seq<Edge> {
        seq_edges(self.values_in_order())
    }

    fn trace(&self, trc: &mut JSTracer)
        ensures
            self.values_in_order().len() == self@.dom().len(),
            self.values_in_order().to_set() == self@.values(),
    {
        broadcast use vstd::std_specs::hash::group_hash_axioms;

        let ghost vals = self.values_in_order();
        let values = self.0.values();
        proof {
            assert(vals == values.remaining().unref());
        }
        for v in it: values
            invariant
                V::obeys_trace_model(),
                it.seq().unref() == vals,
                trc@ == old(trc)@ + seq_edges(vals.take(it.index())),
        {
            proof {
                lemma_seq_edges_take(vals, it.index());
            }
            v.trace(trc);
            assert(trc@ =~= old(trc)@ + seq_edges(vals.take(it.index() + 1)));
        }
        assert(vals.take(vals.len() as int) =~= vals);
    }
}

/// Keys are never traced: a keyed-traced map reports exactly the edges of
/// its values, in the order in which it walks them, whatever its keys would
/// report if traced. So when no value of the map holds an edge, tracing the
/// map reports nothing. (That the walk visits exactly the map's values is
/// what `trace` itself ensures.)
pub proof fn lemma_keys_never_traced<K: JSTraceable, V: JSTraceable, S>(
    m: &HashMapTracedValues<K, V, S>,
)
    ensures
        m.edges() == seq_edges(m.values_in_order()),
        m.values_in_order().to_set() == m@.values() && (forall|v: V|
            #[trigger] m@.values().contains(v) ==> v.edges() == Seq::<Edge>::empty())
            ==> m.edges() == Seq::<Edge>::empty(),
{
    let vals = m.values_in_order();
    if vals.to_set() == m@.values() && (forall|v: V|
        #[trigger] m@.values().contains(v) ==> v.edges() == Seq::<Edge>::empty()) {
        assert forall|i: int| 0 <= i < vals.len() implies (#[trigger] vals[i]).edges()
            == Seq::<Edge>::empty() by {
            assert(vals.to_set().contains(vals[i]));
            assert(m@.values().contains(vals[i]));
        }
        lemma_seq_edges_all_empty(vals);
    }
}

} // verus!
