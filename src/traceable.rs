//! The `JSTraceable` capability and how it propagates through native types.
use vstd::prelude::*;
use crate::tracer::{Edge, Heap, JSObjectRef, JSScriptRef, JSStringRef, JSTracer, JSVal, Reflector};
use crate::tracer::{trace_jsval, trace_object, trace_script, trace_string};
use std::collections::{BTreeMap, HashMap, HashSet};
use std::hash::{BuildHasher, Hash};
use vstd::std_specs::btree::{key_obeys_cmp_spec, spec_btree_map_iter};
use vstd::std_specs::hash::{builds_valid_hashers, obeys_key_model, spec_hash_keys_iter};
use vstd::std_specs::hash::{into_iter_hash_keys, spec_hash_map_iter};
use vstd::std_specs::iter::IteratorSpec;

verus! {

/// A value that can report every collector-owned reference it holds.
pub trait JSTraceable {
    /// The edges that one trace of `self` reports, in order.
    spec fn edges(&self) -> Seq<Edge>;

    /// Whether the std collections that a value of this type may hold behave
    /// as vstd models them: hash keys obey the key model, hashers are
    /// deterministic, ordered keys obey their comparison spec.
    spec fn obeys_trace_model() -> bool;

    /// Reports every edge reachable from `self` to `trc`, and nothing else.
    fn trace(&self, trc: &mut JSTracer)
        requires
            Self::obeys_trace_model(),
        ensures
            final(trc)@ == old(trc)@ + self.edges(),
    ;
}

impl JSTraceable for Heap<JSObjectRef> {
    open spec fn obeys_trace_model() -> bool {
        true
    }

    open spec fn edges(&self) -> Seq<Edge> {
        if self.get().0 == 0 {
            seq![]
        } else {
            seq![Edge::Object(self.get())]
        }
    }

    fn trace(&self, trc: &mut JSTracer) {
        if self.get().is_null() {
            assert(old(trc)@ + self.edges() == old(trc)@);
            return;
        }
        trace_object(trc, "heap object", self);
        assert(old(trc)@.push(Edge::Object(self.get())) == old(trc)@ + self.edges());
    }
}

impl JSTraceable for Heap<JSStringRef> {
    open spec fn obeys_trace_model() -> bool {
        true
    }

    open spec fn edges(&self) -> Seq<Edge> {
        if self.get().0 == 0 {
            seq![]
        } else {
            seq![Edge::String(self.get())]
        }
    }

    fn trace(&self, trc: &mut JSTracer) {
        if self.get().is_null() {
            assert(old(trc)@ + self.edges() == old(trc)@);
            return;
        }
        trace_string(trc, "heap string", self);
        assert(old(trc)@.push(Edge::String(self.get())) == old(trc)@ + self.edges());
    }
}

impl JSTraceable for Heap<JSScriptRef> {
    open spec fn obeys_trace_model() -> bool {
        true
    }

    open spec fn edges(&self) -> Seq<Edge> {
        if self.get().0 == 0 {
            seq![]
        } else {
            seq![Edge::Script(self.get())]
        }
    }

    fn trace(&self, trc: &mut JSTracer) {
        if self.get().is_null() {
            assert(old(trc)@ + self.edges() == old(trc)@);
            return;
        }
        trace_script(trc, "heap script", self);
        assert(old(trc)@.push(Edge::Script(self.get())) == old(trc)@ + self.edges());
    }
}

impl JSTraceable for Heap<JSVal> {
    open spec fn obeys_trace_model() -> bool {
        true
    }

    open spec fn edges(&self) -> Seq<Edge> {
        if self.get().is_markable() {
            seq![Edge::Value(self.get())]
        } else {
            seq![]
        }
    }

    fn trace(&self, trc: &mut JSTracer) {
        trace_jsval(trc, "heap value", self);
        assert(old(trc)@ + self.edges() =~= trc@);
    }
}

/// A value that, by its author's word, holds no collector-owned reference
/// anywhere inside it. Tracing it reports nothing, whatever `T` is.
#[derive(Clone, Copy, Debug, Default, PartialEq, Eq, Hash)]
pub struct NoTrace<T>(pub T);

impl<T> From<T> for NoTrace<T> {
    fn from(item: T) -> (r: Self) {
        NoTrace(item)
    }
}

impl<T> vstd::std_specs::convert::FromSpecImpl<T> for NoTrace<T> {
    open spec fn obeys_from_spec() -> bool {
        true
    }

    open spec fn from_spec(item: T) -> Self {
        NoTrace(item)
    }
}

impl<T> JSTraceable for NoTrace<T> {
    open spec fn obeys_trace_model() -> bool {
        true
    }

    open spec fn edges(&self) -> Seq<Edge> {
        seq![]
    }

    fn trace(&self, trc: &mut JSTracer) {
        assert(old(trc)@ + self.edges() =~= old(trc)@);
    }
}

// Plain data holds no collector-owned reference.
impl JSTraceable for bool {
    open spec fn obeys_trace_model() -> bool {
        true
    }

    open spec fn edges(&self) -> Seq<Edge> {
        seq![]
    }

    fn trace(&self, trc: &mut JSTracer) {
        assert(old(trc)@ + self.edges() =~= old(trc)@);
    }
}

impl JSTraceable for char {
    open spec fn obeys_trace_model() -> bool {
        true
    }

    open spec fn edges(&self) -> Seq<Edge> {
        seq![]
    }

    fn trace(&self, trc: &mut JSTracer) {
        assert(old(trc)@ + self.edges() =~= old(trc)@);
    }
}

impl JSTraceable for u8 {
    open spec fn obeys_trace_model() -> bool {
        true
    }

    open spec fn edges(&self) -> Seq<Edge> {
        seq![]
    }

    fn trace(&self, trc: &mut JSTracer) {
        assert(old(trc)@ + self.edges() =~= old(trc)@);
    }
}

impl JSTraceable for u16 {
    open spec fn obeys_trace_model() -> bool {
        true
    }

    open spec fn edges(&self) -> Seq<Edge> {
        seq![]
    }

    fn trace(&self, trc: &mut JSTracer) {
        assert(old(trc)@ + self.edges() =~= old(trc)@);
    }
}

impl JSTraceable for u32 {
    open spec fn obeys_trace_model() -> bool {
        true
    }

    open spec fn edges(&self) -> Seq<Edge> {
        seq![]
    }

    fn trace(&self, trc: &mut JSTracer) {
        assert(old(trc)@ + self.edges() =~= old(trc)@);
    }
}

impl JSTraceable for u64 {
    open spec fn obeys_trace_model() -> bool {
        true
    }

    open spec fn edges(&self) -> Seq<Edge> {
        seq![]
    }

    fn trace(&self, trc: &mut JSTracer) {
        assert(old(trc)@ + self.edges() =~= old(trc)@);
    }
}

impl JSTraceable for usize {
    open spec fn obeys_trace_model() -> bool {
        true
    }

    open spec fn edges(&self) -> Seq<Edge> {
        seq![]
    }

    fn trace(&self, trc: &mut JSTracer) {
        assert(old(trc)@ + self.edges() =~= old(trc)@);
    }
}

impl JSTraceable for i8 {
    open spec fn obeys_trace_model() -> bool {
        true
    }

    open spec fn edges(&self) -> Seq<Edge> {
        seq![]
    }

    fn trace(&self, trc: &mut JSTracer) {
        assert(old(trc)@ + self.edges() =~= old(trc)@);
    }
}

impl JSTraceable for i16 {
    open spec fn obeys_trace_model() -> bool {
        true
    }

    open spec fn edges(&self) -> Seq<Edge> {
        seq![]
    }

    fn trace(&self, trc: &mut JSTracer) {
        assert(old(trc)@ + self.edges() =~= old(trc)@);
    }
}

impl JSTraceable for i32 {
    open spec fn obeys_trace_model() -> bool {
        true
    }

    open spec fn edges(&self) -> Seq<Edge> {
        seq![]
    }

    fn trace(&self, trc: &mut JSTracer) {
        assert(old(trc)@ + self.edges() =~= old(trc)@);
    }
}

impl JSTraceable for i64 {
    open spec fn obeys_trace_model() -> bool {
        true
    }

    open spec fn edges(&self) -> Seq<Edge> {
        seq![]
    }

    fn trace(&self, trc: &mut JSTracer) {
        assert(old(trc)@ + self.edges() =~= old(trc)@);
    }
}

impl JSTraceable for isize {
    open spec fn obeys_trace_model() -> bool {
        true
    }

    open spec fn edges(&self) -> Seq<Edge> {
        seq![]
    }

    fn trace(&self, trc: &mut JSTracer) {
        assert(old(trc)@ + self.edges() =~= old(trc)@);
    }
}

impl JSTraceable for String {
    open spec fn obeys_trace_model() -> bool {
        true
    }

    open spec fn edges(&self) -> Seq<Edge> {
        seq![]
    }

    fn trace(&self, trc: &mut JSTracer) {
        assert(old(trc)@ + self.edges() =~= old(trc)@);
    }
}

impl JSTraceable for () {
    open spec fn obeys_trace_model() -> bool {
        true
    }

    open spec fn edges(&self) -> Seq<Edge> {
        seq![]
    }

    fn trace(&self, trc: &mut JSTracer) {
        assert(old(trc)@ + self.edges() =~= old(trc)@);
    }
}

impl<'a> JSTraceable for &'a str {
    open spec fn obeys_trace_model() -> bool {
        true
    }

    open spec fn edges(&self) -> Seq<Edge> {
        seq![]
    }

    fn trace(&self, trc: &mut JSTracer) {
        assert(old(trc)@ + self.edges() =~= old(trc)@);
    }
}

/// A reflector's object is reported by [`crate::tracer::trace_reflector`]
/// from the managed object's own trace hook, never by whatever holds the
/// reflector.
impl JSTraceable for Reflector {
    open spec fn obeys_trace_model() -> bool {
        true
    }

    open spec fn edges(&self) -> Seq<Edge> {
        seq![]
    }

    fn trace(&self, trc: &mut JSTracer) {
        assert(old(trc)@ + self.edges() =~= old(trc)@);
    }
}

/// The edges of the elements of `s`, in order.
pub open spec fn seq_edges<T: JSTraceable>(s: Seq<T>) -> Seq<Edge>
    decreases s.len(),
{
    if s.len() == 0 {
        seq![]
    } else {
        seq_edges(s.drop_last()) + s.last().edges()
    }
}

/// Adding one more element to a prefix adds that element's edges.
pub proof fn lemma_seq_edges_take<T: JSTraceable>(s: Seq<T>, i: int)
    requires
        0 <= i < s.len(),
    ensures
        seq_edges(s.take(i + 1)) == seq_edges(s.take(i)) + s[i].edges(),
{
    assert(s.take(i + 1).drop_last() =~= s.take(i));
}

impl<T: JSTraceable> JSTraceable for Box<T> {
    open spec fn obeys_trace_model() -> bool {
        T::obeys_trace_model()
    }

    open spec fn edges(&self) -> Seq<Edge> {
        (**self).edges()
    }

    fn trace(&self, trc: &mut JSTracer) {
        (**self).trace(trc)
    }
}

impl<T: JSTraceable> JSTraceable for std::rc::Rc<T> {
    open spec fn obeys_trace_model() -> bool {
        T::obeys_trace_model()
    }

    open spec fn edges(&self) -> Seq<Edge> {
        (**self).edges()
    }

    fn trace(&self, trc: &mut JSTracer) {
        (**self).trace(trc)
    }
}

impl<T: JSTraceable> JSTraceable for std::sync::Arc<T> {
    open spec fn obeys_trace_model() -> bool {
        T::obeys_trace_model()
    }

    open spec fn edges(&self) -> Seq<Edge> {
        (**self).edges()
    }

    fn trace(&self, trc: &mut JSTracer) {
        (**self).trace(trc)
    }
}

impl<T: JSTraceable> JSTraceable for Option<T> {
    open spec fn obeys_trace_model() -> bool {
        T::obeys_trace_model()
    }

    open spec fn edges(&self) -> Seq<Edge> {
        match self {
            Some(e) => e.edges(),
            None => seq![],
        }
    }

    fn trace(&self, trc: &mut JSTracer) {
        match self {
            Some(e) => e.trace(trc),
            None => {
                assert(old(trc)@ + self.edges() =~= old(trc)@);
            },
        }
    }
}

impl<T: JSTraceable, U: JSTraceable> JSTraceable for Result<T, U> {
    open spec fn obeys_trace_model() -> bool {
        T::obeys_trace_model() && U::obeys_trace_model()
    }

    open spec fn edges(&self) -> Seq<Edge> {
        match self {
            Ok(inner) => inner.edges(),
            Err(inner) => inner.edges(),
        }
    }

    fn trace(&self, trc: &mut JSTracer) {
        match self {
            Ok(inner) => inner.trace(trc),
            Err(inner) => inner.trace(trc),
        }
    }
}

impl<A: JSTraceable, B: JSTraceable> JSTraceable for (A, B) {
    open spec fn obeys_trace_model() -> bool {
        A::obeys_trace_model() && B::obeys_trace_model()
    }

    open spec fn edges(&self) -> Seq<Edge> {
        self.0.edges() + self.1.edges()
    }

    fn trace(&self, trc: &mut JSTracer) {
        self.0.trace(trc);
        self.1.trace(trc);
        assert(trc@ =~= old(trc)@ + self.edges());
    }
}

impl<A: JSTraceable, B: JSTraceable, C: JSTraceable> JSTraceable for (A, B, C) {
    open spec fn obeys_trace_model() -> bool {
        A::obeys_trace_model() && B::obeys_trace_model() && C::obeys_trace_model()
    }

    open spec fn edges(&self) -> Seq<Edge> {
        self.0.edges() + self.1.edges() + self.2.edges()
    }

    fn trace(&self, trc: &mut JSTracer) {
        self.0.trace(trc);
        self.1.trace(trc);
        self.2.trace(trc);
        assert(trc@ =~= old(trc)@ + self.edges());
    }
}

impl<A: JSTraceable, B: JSTraceable, C: JSTraceable, D: JSTraceable> JSTraceable for (A, B, C, D) {
    open spec fn obeys_trace_model() -> bool {
        A::obeys_trace_model() && B::obeys_trace_model() && C::obeys_trace_model() && D::obeys_trace_model()
    }

    open spec fn edges(&self) -> Seq<Edge> {
        self.0.edges() + self.1.edges() + self.2.edges() + self.3.edges()
    }

    fn trace(&self, trc: &mut JSTracer) {
        self.0.trace(trc);
        self.1.trace(trc);
        self.2.trace(trc);
        self.3.trace(trc);
        assert(trc@ =~= old(trc)@ + self.edges());
    }
}

impl<T: JSTraceable> JSTraceable for Vec<T> {
    open spec fn obeys_trace_model() -> bool {
        T::obeys_trace_model()
    }

    open spec fn edges(&self) -> Seq<Edge> {
        seq_edges(self@)
    }

    fn trace(&self, trc: &mut JSTracer) {
        let mut i: usize = 0;
        while i < self.len()
            invariant
                T::obeys_trace_model(),
                i <=  self@.len(),
                trc@ == old(trc)@ + seq_edges(self@.take(i as int)),
            decreases self@.len() - i,
        {
            self[i].trace(trc);
            proof {
                lemma_seq_edges_take(self@, i as int);
                assert(trc@ =~= old(trc)@ + seq_edges(self@.take(i + 1)));
            }
            i = i + 1;
        }
        assert(self@.take(i as int) =~= self@);
    }
}

impl<T: JSTraceable> JSTraceable for [T] {
    open spec fn obeys_trace_model() -> bool {
        T::obeys_trace_model()
    }

    open spec fn edges(&self) -> Seq<Edge> {
        seq_edges(self@)
    }

    fn trace(&self, trc: &mut JSTracer) {
        let mut i: usize = 0;
        while i < self.len()
            invariant
                T::obeys_trace_model(),
                i <=  self@.len(),
                trc@ == old(trc)@ + seq_edges(self@.take(i as int)),
            decreases self@.len() - i,
        {
            self[i].trace(trc);
            proof {
                lemma_seq_edges_take(self@, i as int);
                assert(trc@ =~= old(trc)@ + seq_edges(self@.take(i + 1)));
            }
            i = i + 1;
        }
        assert(self@.take(i as int) =~= self@);
    }
}

impl<T: JSTraceable, const N: usize> JSTraceable for [T; N] {
    open spec fn obeys_trace_model() -> bool {
        T::obeys_trace_model()
    }

    open spec fn edges(&self) -> Seq<Edge> {
        seq_edges(self@)
    }

    fn trace(&self, trc: &mut JSTracer) {
        let mut i: usize = 0;
        while i < N
            invariant
                T::obeys_trace_model(),
                i <=  N,
                self@.len() == N,
                trc@ == old(trc)@ + seq_edges(self@.take(i as int)),
            decreases N - i,
        {
            self[i].trace(trc);
            proof {
                lemma_seq_edges_take(self@, i as int);
                assert(trc@ =~= old(trc)@ + seq_edges(self@.take(i + 1)));
            }
            i = i + 1;
        }
        assert(self@.take(i as int) =~= self@);
    }
}

impl<T: JSTraceable> JSTraceable for std::collections::VecDeque<T> {
    open spec fn obeys_trace_model() -> bool {
        T::obeys_trace_model()
    }

    open spec fn edges(&self) -> Seq<Edge> {
        seq_edges(self@)
    }

    fn trace(&self, trc: &mut JSTracer) {
        let mut i: usize = 0;
        while i < self.len()
            invariant
                T::obeys_trace_model(),
                i <=  self@.len(),
                trc@ == old(trc)@ + seq_edges(self@.take(i as int)),
            decreases self@.len() - i,
        {
            self[i].trace(trc);
            proof {
                lemma_seq_edges_take(self@, i as int);
                assert(trc@ =~= old(trc)@ + seq_edges(self@.take(i + 1)));
            }
            i = i + 1;
        }
        assert(self@.take(i as int) =~= self@);
    }
}

/// The edges of the keys and values of `s`, each key just before its value.
pub open spec fn pair_edges<K: JSTraceable, V: JSTraceable>(s: Seq<(K, V)>) -> Seq<Edge>
    decreases s.len(),
{
    if s.len() == 0 {
        seq![]
    } else {
        pair_edges(s.drop_last()) + s.last().0.edges() + s.last().1.edges()
    }
}

/// Adding one more pair to a prefix adds that pair's key and value edges.
pub proof fn lemma_pair_edges_take<K: JSTraceable, V: JSTraceable>(s: Seq<(K, V)>, i: int)
    requires
        0 <= i < s.len(),
    ensures
        pair_edges(s.take(i + 1)) == pair_edges(s.take(i)) + s[i].0.edges() + s[i].1.edges(),
{
    assert(s.take(i + 1).drop_last() =~= s.take(i));
}

/// The entries of a hash map, in the order in which it is walked.
pub open spec fn hash_map_entries<K, V, S>(m: &HashMap<K, V, S>) -> Seq<(K, V)> {
    vstd::std_specs::hash::into_iter(spec_hash_map_iter(m))
}

/// The members of a hash set, in the order in which it is walked.
pub open spec fn hash_set_members<T, S>(m: &HashSet<T, S>) -> Seq<T> {
    into_iter_hash_keys(spec_hash_keys_iter(m))
}

/// The entries of an ordered map, in the order in which it is walked.
pub open spec fn btree_map_entries<K, V>(m: &BTreeMap<K, V>) -> Seq<(K, V)> {
    vstd::std_specs::btree::into_iter(spec_btree_map_iter(m))
}

impl<K, V, S> JSTraceable for HashMap<K, V, S> where
    K: Hash + Eq + JSTraceable,
    V: JSTraceable,
    S: BuildHasher,
 {
    open spec fn obeys_trace_model() -> bool {
        obeys_key_model::<K>() && builds_valid_hashers::<S>() && K::obeys_trace_model()
            && V::obeys_trace_model()
    }

    open spec fn edges(&self) -> Seq<Edge> {
        pair_edges(hash_map_entries(self))
    }

    fn trace(&self, trc: &mut JSTracer) {
        let ghost entries = hash_map_entries(self);
        for (k, v) in it: self.iter()
            invariant
                K::obeys_trace_model(),
                V::obeys_trace_model(),
                it.seq().unref() == entries,
                trc@ == old(trc)@ + pair_edges(entries.take(it.index())),
        {
            proof {
                lemma_pair_edges_take(entries, it.index());
            }
            k.trace(trc);
            v.trace(trc);
            assert(trc@ =~= old(trc)@ + pair_edges(entries.take(it.index() + 1)));
        }
        assert(entries.take(entries.len() as int) =~= entries);
    }
}

impl<T, S> JSTraceable for HashSet<T, S> where T: Hash + Eq + JSTraceable, S: BuildHasher {
    open spec fn obeys_trace_model() -> bool {
        obeys_key_model::<T>() && builds_valid_hashers::<S>() && T::obeys_trace_model()
    }

    open spec fn edges(&self) -> Seq<Edge> {
        seq_edges(hash_set_members(self))
    }

    fn trace(&self, trc: &mut JSTracer) {
        let ghost members = hash_set_members(self);
        for v in it: self.iter()
            invariant
                T::obeys_trace_model(),
                it.seq().unref() == members,
                trc@ == old(trc)@ + seq_edges(members.take(it.index())),
        {
            proof {
                lemma_seq_edges_take(members, it.index());
            }
            v.trace(trc);
            assert(trc@ =~= old(trc)@ + seq_edges(members.take(it.index() + 1)));
        }
        assert(members.take(members.len() as int) =~= members);
    }
}

impl<K: Ord + JSTraceable, V: JSTraceable> JSTraceable for BTreeMap<K, V> {
    open spec fn obeys_trace_model() -> bool {
        key_obeys_cmp_spec::<K>() && K::obeys_trace_model() && V::obeys_trace_model()
    }

    open spec fn edges(&self) -> Seq<Edge> {
        pair_edges(btree_map_entries(self))
    }

    fn trace(&self, trc: &mut JSTracer) {
        let ghost entries = btree_map_entries(self);
        for (k, v) in it: self.iter()
            invariant
                K::obeys_trace_model(),
                V::obeys_trace_model(),
                it.seq().unref() == entries,
                trc@ == old(trc)@ + pair_edges(entries.take(it.index())),
        {
            proof {
                lemma_pair_edges_take(entries, it.index());
            }
            k.trace(trc);
            v.trace(trc);
            assert(trc@ =~= old(trc)@ + pair_edges(entries.take(it.index() + 1)));
        }
        assert(entries.take(entries.len() as int) =~= entries);
    }
}

/// Tracing a concatenation reports the edges of each part, in order.
pub proof fn lemma_seq_edges_append<T: JSTraceable>(a: Seq<T>, b: Seq<T>)
    ensures
        seq_edges(a + b) == seq_edges(a) + seq_edges(b),
    decreases b.len(),
{
    if b.len() == 0 {
        assert(a + b =~= a);
        assert(seq_edges(a) + seq_edges(b) =~= seq_edges(a));
    } else {
        lemma_seq_edges_append(a, b.drop_last());
        assert((a + b).drop_last() =~= a + b.drop_last());
        assert((a + b).last() == b.last());
        assert(seq_edges(a) + seq_edges(b) =~= seq_edges(a) + seq_edges(b.drop_last())
            + b.last().edges());
    }
}

/// Completeness of sequence tracing: element `i` is traced exactly once, at
/// its place, between the elements before it and the elements after it.
pub proof fn lemma_each_element_traced_once<T: JSTraceable>(s: Seq<T>, i: int)
    requires
        0 <= i < s.len(),
    ensures
        seq_edges(s) == seq_edges(s.take(i)) + s[i].edges() + seq_edges(s.skip(i + 1)),
{
    lemma_seq_edges_take(s, i);
    lemma_seq_edges_append(s.take(i + 1), s.skip(i + 1));
    assert(s.take(i + 1) + s.skip(i + 1) =~= s);
}

/// A sequence of values that report nothing reports nothing.
pub proof fn lemma_seq_edges_all_empty<T: JSTraceable>(s: Seq<T>)
    requires
        forall|i: int| 0 <= i < s.len() ==> (#[trigger] s[i]).edges() == Seq::<Edge>::empty(),
    ensures
        seq_edges(s) == Seq::<Edge>::empty(),
    decreases s.len(),
{
    if s.len() > 0 {
        let t = s.drop_last();
        assert forall|i: int| 0 <= i < t.len() implies (#[trigger] t[i]).edges() == Seq::<
            Edge,
        >::empty() by {
            assert(t[i] == s[i]);
        }
        lemma_seq_edges_all_empty(t);
        assert(s.last() == s[s.len() - 1]);
        assert(seq_edges(s) =~= Seq::<Edge>::empty());
    }
}

/// Completeness through nesting: in a vector of optional shared triples of
/// object handles, every non-null handle that is present is reported, and
/// it is reported within the edges of its own element, traced exactly once.
pub proof fn lemma_nested_handles_reported(
    v: Vec<Option<std::rc::Rc<[Heap<JSObjectRef>; 3]>>>,
    i: int,
    j: int,
)
    requires
        0 <= i < v@.len(),
        v@[i] is Some,
        0 <= j < 3,
        v@[i]->0@[j].get().0 != 0,
    ensures
        v.edges() == seq_edges(v@.take(i)) + v@[i].edges() + seq_edges(v@.skip(i + 1)),
        v@[i].edges().contains(Edge::Object(v@[i]->0@[j].get())),
        v.edges().contains(Edge::Object(v@[i]->0@[j].get())),
{
    let triple = v@[i]->0;
    let h = triple@[j];
    lemma_each_element_traced_once(v@, i);
    lemma_each_element_traced_once(triple@, j);
    let e = Edge::Object(h.get());
    assert(h.edges() == seq![e]);
    let before = seq_edges(triple@.take(j));
    assert((before + h.edges() + seq_edges(triple@.skip(j + 1)))[before.len() as int] == e);
    assert(v@[i].edges().contains(e));
    let pre = seq_edges(v@.take(i));
    let inner = v@[i].edges();
    let k = choose|k: int| 0 <= k < inner.len() && inner[k] == e;
    assert((pre + inner + seq_edges(v@.skip(i + 1)))[pre.len() + k] == e);
}

/// The escape hatch reports nothing, also where a sequence walks into it.
pub proof fn lemma_no_trace_reports_nothing<T>(s: Seq<NoTrace<T>>)
    ensures
        seq_edges(s) == Seq::<Edge>::empty(),
        forall|i: int| 0 <= i < s.len() ==> (#[trigger] s[i]).edges() == Seq::<Edge>::empty(),
{
    lemma_seq_edges_all_empty(s);
}

/// A null handle reports nothing, whatever sequence holds it.
pub proof fn lemma_null_handles_report_nothing(s: Seq<Heap<JSObjectRef>>)
    requires
        forall|i: int| 0 <= i < s.len() ==> (#[trigger] s[i]).get().0 == 0,
    ensures
        seq_edges(s) == Seq::<Edge>::empty(),
{
    assert forall|i: int| 0 <= i < s.len() implies (#[trigger] s[i]).edges() == Seq::<
        Edge,
    >::empty() by {
        assert(s[i].get().0 == 0);
    }
    lemma_seq_edges_all_empty(s);
}

} // verus!
