//! The root registry of one thread, and the scoped guards that keep values
//! in it while they are reachable only from the native stack.
//!
//! The registry is an explicit value owned by the thread's script context:
//! a guard is created against it and handed back to it when its scope ends.
//! The registry owns what it roots, so the rooted payload stays at one place
//! however often the guard itself is moved.
use vstd::prelude::*;
use crate::tracer::{Edge, JSTracer};
use crate::traceable::{JSTraceable, seq_edges};

verus! {

/// What one guard keeps alive: a single boxed value, or a growable sequence.
pub enum Rooted<T> {
    Boxed(Box<T>),
    Sequence(Vec<T>),
}

impl<T: JSTraceable> JSTraceable for Rooted<T> {
    open spec fn obeys_trace_model() -> bool {
        T::obeys_trace_model()
    }

    open spec fn edges(&self) -> Seq<Edge> {
        match self {
            Rooted::Boxed(b) => b.edges(),
            Rooted::Sequence(v) => v.edges(),
        }
    }

    fn trace(&self, trc: &mut JSTracer) {
        match self {
            Rooted::Boxed(b) => b.trace(trc),
            Rooted::Sequence(v) => v.trace(trc),
        }
    }
}

impl<T> Rooted<T> {
    /// The rooted values: the one boxed value, or the whole sequence.
    pub open spec fn values(&self) -> Seq<T> {
        match self {
            Rooted::Boxed(b) => seq![**b],
            Rooted::Sequence(v) => v@,
        }
    }
}

/// One registration: the guard's identity and what it roots.
pub struct RootEntry<T> {
    pub id: u64,
    pub rooted: Rooted<T>,
}

/// The edges of every entry, in registration order.
pub open spec fn entries_edges<T: JSTraceable>(s: Seq<RootEntry<T>>) -> Seq<Edge>
    decreases s.len(),
{
    if s.len() == 0 {
        seq![]
    } else {
        entries_edges(s.drop_last()) + s.last().rooted.edges()
    }
}

proof fn lemma_entries_edges_take<T: JSTraceable>(s: Seq<RootEntry<T>>, i: int)
    requires
        0 <= i < s.len(),
    ensures
        entries_edges(s.take(i + 1)) == entries_edges(s.take(i)) + s[i].rooted.edges(),
{
    assert(s.take(i + 1).drop_last() =~= s.take(i));
}

/// The values of one thread that must survive collection because only the
/// native stack refers to them. Its entries are exactly the live guards.
pub struct RootedTraceableSet<T> {
    set: Vec<RootEntry<T>>,
    next_id: u64,
}

impl<T> View for RootedTraceableSet<T> {
    type V = Seq<RootEntry<T>>;

    closed spec fn view(&self) -> Seq<RootEntry<T>> {
        self.set@
    }
}

impl<T> RootedTraceableSet<T> {
    /// The identities of the live guards, in registration order.
    pub open spec fn ids(&self) -> Seq<u64> {
        self@.map_values(|e: RootEntry<T>| e.id)
    }

    /// Whether the guard with identity `id` is registered.
    pub open spec fn has(&self, id: u64) -> bool {
        self.ids().contains(id)
    }

    /// Where the guard with identity `id` stands in the registry.
    pub open spec fn position(&self, id: u64) -> int {
        self.ids().index_of(id)
    }

    /// What the guard with identity `id` roots.
    pub open spec fn rooted(&self, id: u64) -> Rooted<T> {
        self@[self.position(id)].rooted
    }

    /// Every live guard other than `id` is still live in `after`, rooting
    /// the same thing.
    pub open spec fn others_kept(&self, after: &RootedTraceableSet<T>, id: u64) -> bool {
        forall|other: u64|
            other != id && #[trigger] self.has(other) ==> after.has(other) && after.rooted(other)
                == self.rooted(other)
    }

    /// No two guards share an identity, and a new identity is still free.
    pub closed spec fn wf(&self) -> bool {
        &&& self.ids().no_duplicates()
        &&& forall|i: int| 0 <= i < self.set@.len() ==> self.set@[i].id < self.next_id
    }

    /// How many identities have been handed out so far.
    pub closed spec fn issued(&self) -> nat {
        self.next_id as nat
    }

    /// Whether one more guard can be given an identity.
    pub open spec fn can_register(&self) -> bool {
        self.issued() < u64::MAX
    }

    /// The registry at thread start: empty.
    pub fn new() -> (r: RootedTraceableSet<T>)
        ensures
            r.wf(),
            r.issued() == 0,
            r@ == Seq::<RootEntry<T>>::empty(),
    {
        RootedTraceableSet { set: Vec::new(), next_id: 0 }
    }

    /// The number of live guards.
    pub fn len(&self) -> (r: usize)
        ensures
            r == self@.len(),
    {
        self.set.len()
    }

    /// Whether no guard is live.
    pub fn is_empty(&self) -> (r: bool)
        ensures
            r == (self@.len() == 0),
    {
        self.set.len() == 0
    }

    /// Registers `rooted` under a fresh identity, as the most recent entry.
    fn add(&mut self, rooted: Rooted<T>) -> (id: u64)
        requires
            old(self).wf(),
            old(self).can_register(),
        ensures
            final(self).wf(),
            final(self).issued() == old(self).issued() + 1,
            !old(self).has(id),
            final(self)@ == old(self)@.push(RootEntry { id, rooted }),
            final(self).ids() == old(self).ids().push(id),
            final(self).has(id),
            final(self).rooted(id) == rooted,
            old(self).others_kept(final(self), id),
    {
        let id = self.next_id;
        proof {
            if self.ids().contains(id) {
                let i = self.ids().index_of(id);
                assert(self.set@[i].id == id);
            }
        }
        self.set.push(RootEntry { id, rooted });
        self.next_id = self.next_id + 1;
        proof {
            assert(self.ids() =~= old(self).ids().push(id));
            assert forall|i: int| 0 <= i < self.set@.len() implies self.set@[i].id < self.next_id by {
                if i < old(self).set@.len() {
                    assert(self.set@[i] == old(self).set@[i]);
                }
            }
            self.lemma_position_of_entry(self@.len() - 1);
            assert forall|other: u64| other != id && #[trigger] old(self).has(other) implies self.has(
                other,
            ) && self.rooted(other) == old(self).rooted(other) by {
                let p = old(self).position(other);
                assert(old(self).ids()[p] == other);
                assert(self@[p] == old(self)@[p]);
                self.lemma_position_of_entry(p);
            }
        }
        id
    }

    /// In a well-formed registry, each entry is found where it stands.
    pub proof fn lemma_position_of_entry(&self, i: int)
        requires
            self.wf(),
            0 <= i < self@.len(),
        ensures
            self.has(self@[i].id),
            self.position(self@[i].id) == i,
    {
        let id = self@[i].id;
        assert(self.ids()[i] == id);
        assert(self.has(id));
        let p = self.position(id);
        assert(self.ids()[p] == id);
    }

    /// Changing the entry at `i` in place, identity kept, keeps the registry
    /// well formed and every other guard as it was.
    proof fn lemma_entry_changed_in_place(&self, after: &RootedTraceableSet<T>, i: int)
        requires
            self.wf(),
            0 <= i < self@.len(),
            after.next_id == self.next_id,
            after@.len() == self@.len(),
            after@[i].id == self@[i].id,
            forall|j: int| 0 <= j < self@.len() && j != i ==> after@[j] == self@[j],
        ensures
            after.wf(),
            after.issued() == self.issued(),
            after.ids() == self.ids(),
            after.has(self@[i].id),
            after.position(self@[i].id) == i,
            self.position(self@[i].id) == i,
            after.rooted(self@[i].id) == after@[i].rooted,
            self.others_kept(after, self@[i].id),
    {
        let id = self@[i].id;
        assert forall|k: int| 0 <= k < after.ids().len() implies after.ids()[k] == self.ids()[k] by {
            if k != i {
                assert(after@[k] == self@[k]);
            }
        }
        assert(after.ids() =~= self.ids());
        assert forall|k: int| 0 <= k < after.set@.len() implies after.set@[k].id < after.next_id by {
            assert(after.ids()[k] == self.ids()[k]);
        }
        self.lemma_position_of_entry(i);
        after.lemma_position_of_entry(i);
        assert forall|other: u64| other != id && #[trigger] self.has(other) implies after.has(other)
            && after.rooted(other) == self.rooted(other) by {
            let p = self.position(other);
            assert(self.ids()[p] == other);
            assert(after@[p] == self@[p]);
            after.lemma_position_of_entry(p);
            self.lemma_position_of_entry(p);
        }
    }

    /// The index of the entry of the guard with identity `id`, searched from
    /// the most recent entry back.
    fn find(&self, id: u64) -> (i: usize)
        requires
            self.wf(),
            self.has(id),
        ensures
            i == self.position(id),
            i < self@.len(),
            self@[i as int].id == id,
    {
        let ghost pos = self.position(id);
        let mut i: usize = self.set.len();
        while i > 0
            invariant
                i <= self.set@.len(),
                self.ids().no_duplicates(),
                self.ids()[pos] == id,
                0 <= pos < self.set@.len(),
                pos < i,
            ensures
                i > 0,
                self.ids()[i - 1] == id,
            decreases i,
        {
            if self.set[i - 1].id == id {
                assert(self.ids()[i - 1] == id);
                break;
            }
            assert(self.ids()[i - 1] != id);
            i = i - 1;
        }
        assert(i - 1 == pos);
        i - 1
    }

    /// Puts `rooted` in place of what the guard with identity `id` roots.
    fn replace(&mut self, id: u64, rooted: Rooted<T>) -> (prev: Rooted<T>)
        requires
            old(self).wf(),
            old(self).has(id),
        ensures
            final(self).wf(),
            final(self).issued() == old(self).issued(),
            prev == old(self).rooted(id),
            final(self)@ == old(self)@.update(old(self).position(id), RootEntry { id, rooted }),
            final(self).ids() == old(self).ids(),
            final(self).has(id),
            final(self).rooted(id) == rooted,
            old(self).others_kept(final(self), id),
    {
        let i = self.find(id);
        let mut rooted = rooted;
        std::mem::swap(&mut self.set[i].rooted, &mut rooted);
        proof {
            old(self).lemma_entry_changed_in_place(self, i as int);
            assert(self.set@ =~= old(self).set@.update(i as int, RootEntry { id, rooted: self@[i as int].rooted }));
        }
        rooted
    }

    /// The boxed value of the guard with identity `id`, if it roots one.
    fn boxed(&self, id: u64) -> (r: Option<&T>)
        requires
            self.wf(),
            self.has(id),
        ensures
            r is Some <==> self.rooted(id) is Boxed,
            r matches Some(v) ==> self.rooted(id).values() == seq![*v],
    {
        let i = self.find(id);
        match &self.set[i].rooted {
            Rooted::Boxed(b) => Some(&**b),
            Rooted::Sequence(_) => None,
        }
    }

    /// The sequence of the guard with identity `id`, if it roots one.
    fn sequence(&self, id: u64) -> (r: Option<&Vec<T>>)
        requires
            self.wf(),
            self.has(id),
        ensures
            r is Some <==> self.rooted(id) is Sequence,
            r matches Some(v) ==> self.rooted(id).values() == v@,
    {
        let i = self.find(id);
        match &self.set[i].rooted {
            Rooted::Sequence(v) => Some(v),
            Rooted::Boxed(_) => None,
        }
    }

    /// Appends `items`, in order, to the sequence of the guard with
    /// identity `id`, in place.
    fn append_to_sequence(&mut self, id: u64, items: &mut Vec<T>)
        requires
            old(self).wf(),
            old(self).has(id),
            old(self).rooted(id) is Sequence,
        ensures
            final(self).wf(),
            final(self).issued() == old(self).issued(),
            final(self).ids() == old(self).ids(),
            final(self).has(id),
            final(self).rooted(id) is Sequence,
            final(self).rooted(id).values() == old(self).rooted(id).values() + old(items)@,
            final(items)@ == Seq::<T>::empty(),
            old(self).others_kept(final(self), id),
            final(self)@.len() == old(self)@.len(),
            forall|j: int|
                0 <= j < old(self)@.len() && j != old(self).position(id) ==> final(self)@[j]
                    == old(self)@[j],
    {
        let i = self.find(id);
        match &mut self.set[i].rooted {
            Rooted::Sequence(v) => v.append(items),
            Rooted::Boxed(_) => {},
        }
        proof {
            old(self).lemma_entry_changed_in_place(self, i as int);
        }
    }

    /// Drops every element of the sequence of the guard with identity `id`,
    /// in place, so that they are still rooted while they are destroyed.
    fn clear_sequence(&mut self, id: u64)
        requires
            old(self).wf(),
            old(self).has(id),
            old(self).rooted(id) is Sequence,
        ensures
            final(self).wf(),
            final(self).issued() == old(self).issued(),
            final(self).ids() == old(self).ids(),
            final(self).has(id),
            final(self).rooted(id) is Sequence,
            final(self).rooted(id).values() == Seq::<T>::empty(),
            old(self).others_kept(final(self), id),
            final(self)@.len() == old(self)@.len(),
            forall|j: int|
                0 <= j < old(self)@.len() && j != old(self).position(id) ==> final(self)@[j]
                    == old(self)@[j],
    {
        let i = self.find(id);
        match &mut self.set[i].rooted {
            Rooted::Sequence(v) => v.clear(),
            Rooted::Boxed(_) => {},
        }
        proof {
            old(self).lemma_entry_changed_in_place(self, i as int);
        }
    }

    /// Deregisters the guard with identity `id` and hands back what it rooted.
    /// The most recent matching entry goes; the others keep their order.
    fn remove(&mut self, id: u64) -> (r: Rooted<T>)
        requires
            old(self).wf(),
            old(self).has(id),
        ensures
            final(self).wf(),
            final(self).issued() == old(self).issued(),
            r == old(self).rooted(id),
            final(self)@ == old(self)@.remove(old(self).position(id)),
            final(self).ids() == old(self).ids().remove(old(self).position(id)),
            !final(self).has(id),
            old(self).others_kept(final(self), id),
    {
        let ghost pos = self.position(id);
        let i = self.find(id);
        let entry = self.set.remove(i);
        proof {
            assert(self.ids() =~= old(self).ids().remove(pos));
            assert forall|a: int, b: int|
                0 <= a < self.ids().len() && 0 <= b < self.ids().len() && a != b implies
                self.ids()[a] != self.ids()[b] by {
                let oa = if a < pos { a } else { a + 1 };
                let ob = if b < pos { b } else { b + 1 };
                assert(self.ids()[a] == old(self).ids()[oa]);
                assert(self.ids()[b] == old(self).ids()[ob]);
            }
            assert forall|k: int| 0 <= k < self.set@.len() implies self.set@[k].id < self.next_id by {
                let ok = if k < pos { k } else { k + 1 };
                assert(self.set@[k] == old(self).set@[ok]);
            }
            assert forall|other: u64| other != id && #[trigger] old(self).has(other) implies self.has(
                other,
            ) && self.rooted(other) == old(self).rooted(other) by {
                let p = old(self).position(other);
                assert(old(self).ids()[p] == other);
                assert(p != pos);
                let np = if p < pos { p } else { p - 1 };
                assert(self@[np] == old(self)@[p]);
                self.lemma_position_of_entry(np);
            }
            if self.has(id) {
                let k = choose|k: int| 0 <= k < self.ids().len() && self.ids()[k] == id;
                let ok = if k < pos { k } else { k + 1 };
                assert(old(self).ids()[ok] == id);
                assert(old(self).ids()[pos] == id);
            }
        }
        entry.rooted
    }
}

/// Keeps one boxed value rooted for as long as the guard lives. The value
/// lives in the registry; the guard names it, and is handed back to the
/// registry by [`RootedTraceableBox::unroot`] when its scope ends; a guard
/// that is dropped instead leaves its value rooted.
pub struct RootedTraceableBox {
    id: u64,
}

impl RootedTraceableBox {
    /// The identity under which the guard is registered.
    pub closed spec fn id(&self) -> u64 {
        self.id
    }

    /// Roots `traceable` for the life of the returned guard.
    pub fn new<T>(roots: &mut RootedTraceableSet<T>, traceable: T) -> (r: RootedTraceableBox)
        requires
            old(roots).wf(),
            old(roots).can_register(),
        ensures
            final(roots).wf(),
            final(roots).issued() == old(roots).issued() + 1,
            !old(roots).has(r.id()),
            final(roots).ids() == old(roots).ids().push(r.id()),
            final(roots)@ == old(roots)@.push(
                RootEntry { id: r.id(), rooted: Rooted::Boxed(Box::new(traceable)) },
            ),
            final(roots).has(r.id()),
            final(roots).rooted(r.id()) == Rooted::Boxed(Box::new(traceable)),
            old(roots).others_kept(final(roots), r.id()),
    {
        RootedTraceableBox::from_box(roots, Box::new(traceable))
    }

    /// Roots the boxed `boxed_traceable` for the life of the returned guard.
    pub fn from_box<T>(roots: &mut RootedTraceableSet<T>, boxed_traceable: Box<T>) -> (r:
        RootedTraceableBox)
        requires
            old(roots).wf(),
            old(roots).can_register(),
        ensures
            final(roots).wf(),
            final(roots).issued() == old(roots).issued() + 1,
            !old(roots).has(r.id()),
            final(roots).ids() == old(roots).ids().push(r.id()),
            final(roots)@ == old(roots)@.push(
                RootEntry { id: r.id(), rooted: Rooted::Boxed(boxed_traceable) },
            ),
            final(roots).has(r.id()),
            final(roots).rooted(r.id()) == Rooted::Boxed(boxed_traceable),
            old(roots).others_kept(final(roots), r.id()),
    {
        let id = roots.add(Rooted::Boxed(boxed_traceable));
        RootedTraceableBox { id }
    }

    /// The rooted value.
    pub fn get<'a, T>(&self, roots: &'a RootedTraceableSet<T>) -> (r: &'a T)
        requires
            roots.wf(),
            roots.has(self.id()),
            roots.rooted(self.id()) is Boxed,
        ensures
            roots.rooted(self.id()).values() == seq![*r],
    {
        roots.boxed(self.id).unwrap()
    }

    /// Replaces the rooted value by `value`, which stays rooted in its place.
    pub fn set<T>(&self, roots: &mut RootedTraceableSet<T>, value: T)
        requires
            old(roots).wf(),
            old(roots).has(self.id()),
            old(roots).rooted(self.id()) is Boxed,
        ensures
            final(roots).wf(),
            final(roots).issued() == old(roots).issued(),
            final(roots).ids() == old(roots).ids(),
            final(roots)@ == old(roots)@.update(
                old(roots).position(self.id()),
                RootEntry { id: self.id(), rooted: Rooted::Boxed(Box::new(value)) },
            ),
            final(roots).has(self.id()),
            final(roots).rooted(self.id()) == Rooted::Boxed(Box::new(value)),
            old(roots).others_kept(final(roots), self.id()),
    {
        let _prev = roots.replace(self.id, Rooted::Boxed(Box::new(value)));
    }

    /// Ends the guard's scope: deregisters the value first, then hands it
    /// back to be dropped or kept by the caller.
    pub fn unroot<T>(self, roots: &mut RootedTraceableSet<T>) -> (r: T)
        requires
            old(roots).wf(),
            old(roots).has(self.id()),
            old(roots).rooted(self.id()) is Boxed,
        ensures
            final(roots).wf(),
            final(roots).issued() == old(roots).issued(),
            old(roots).rooted(self.id()).values() == seq![r],
            final(roots)@ == old(roots)@.remove(old(roots).position(self.id())),
            final(roots).ids() == old(roots).ids().remove(old(roots).position(self.id())),
            !final(roots).has(self.id()),
            old(roots).others_kept(final(roots), self.id()),
    {
        match roots.remove(self.id) {
            Rooted::Boxed(b) => *b,
            Rooted::Sequence(mut v) => {
                proof {
                    assert(false);
                }
                v.pop().unwrap()
            },
        }
    }
}

/// Storage for a sequence that is rooted while a [`RootedVec`] holds it.
/// It is empty whenever it is not rooted.
pub struct RootableVec<T> {
    v: Vec<T>,
}

impl<T> View for RootableVec<T> {
    type V = Seq<T>;

    closed spec fn view(&self) -> Seq<T> {
        self.v@
    }
}

impl<T> RootableVec<T> {
    /// Storage that can be rooted later.
    pub fn new_unrooted() -> (r: RootableVec<T>)
        ensures
            r@ == Seq::<T>::empty(),
    {
        RootableVec { v: Vec::new() }
    }

    /// Whether the storage holds no element.
    pub fn is_empty(&self) -> (r: bool)
        ensures
            r == (self@.len() == 0),
    {
        self.v.len() == 0
    }
}

/// Keeps a growable sequence rooted, as one registry entry, for as long as
/// the guard lives; elements pushed meanwhile are rooted with it. The guard
/// is handed back by [`RootedVec::unroot`] when its scope ends; a guard that
/// is dropped instead leaves its sequence rooted.
pub struct RootedVec {
    id: u64,
}

impl RootedVec {
    /// The identity under which the guard is registered.
    pub closed spec fn id(&self) -> u64 {
        self.id
    }

    /// Roots the sequence held by `root` for the life of the returned guard.
    pub fn new<T>(roots: &mut RootedTraceableSet<T>, root: RootableVec<T>) -> (r: RootedVec)
        requires
            old(roots).wf(),
            old(roots).can_register(),
        ensures
            final(roots).wf(),
            final(roots).issued() == old(roots).issued() + 1,
            !old(roots).has(r.id()),
            final(roots).ids() == old(roots).ids().push(r.id()),
            final(roots)@.len() == old(roots)@.len() + 1,
            final(roots)@.drop_last() == old(roots)@,
            final(roots)@.last().id == r.id(),
            final(roots)@.last().rooted is Sequence,
            final(roots)@.last().rooted.values() == root@,
            final(roots).has(r.id()),
            final(roots).rooted(r.id()) is Sequence,
            final(roots).rooted(r.id()).values() == root@,
            old(roots).others_kept(final(roots), r.id()),
    {
        let id = roots.add(Rooted::Sequence(root.v));
        proof {
            assert(final(roots)@.drop_last() =~= old(roots)@);
        }
        RootedVec { id }
    }

    /// Roots the sequence held by `root`, then appends `items` to it, all
    /// rooted for the life of the returned guard.
    pub fn from_iter<T>(roots: &mut RootedTraceableSet<T>, root: RootableVec<T>, items: Vec<T>) -> (r:
        RootedVec)
        requires
            old(roots).wf(),
            old(roots).can_register(),
        ensures
            final(roots).wf(),
            final(roots).issued() == old(roots).issued() + 1,
            !old(roots).has(r.id()),
            final(roots).ids() == old(roots).ids().push(r.id()),
            final(roots)@.len() == old(roots)@.len() + 1,
            final(roots)@.drop_last() == old(roots)@,
            final(roots)@.last().id == r.id(),
            final(roots)@.last().rooted is Sequence,
            final(roots)@.last().rooted.values() == root@ + items@,
            final(roots).has(r.id()),
            final(roots).rooted(r.id()) is Sequence,
            final(roots).rooted(r.id()).values() == root@ + items@,
            old(roots).others_kept(final(roots), r.id()),
    {
        let r = RootedVec::new(roots, root);
        let ghost mid = *roots;
        proof {
            roots.lemma_position_of_entry(roots@.len() - 1);
        }
        r.extend(roots, items);
        proof {
            assert(roots@.drop_last() =~= mid@.drop_last());
            assert(roots.ids()[roots@.len() - 1] == r.id());
        }
        r
    }

    /// The rooted elements.
    pub fn get<'a, T>(&self, roots: &'a RootedTraceableSet<T>) -> (r: &'a Vec<T>)
        requires
            roots.wf(),
            roots.has(self.id()),
            roots.rooted(self.id()) is Sequence,
        ensures
            roots.rooted(self.id()).values() == r@,
    {
        roots.sequence(self.id).unwrap()
    }

    /// Appends `value` to the rooted elements.
    pub fn push<T>(&self, roots: &mut RootedTraceableSet<T>, value: T)
        requires
            old(roots).wf(),
            old(roots).has(self.id()),
            old(roots).rooted(self.id()) is Sequence,
        ensures
            final(roots).wf(),
            final(roots).issued() == old(roots).issued(),
            final(roots).ids() == old(roots).ids(),
            final(roots)@.len() == old(roots)@.len(),
            final(roots).position(self.id()) == old(roots).position(self.id()),
            final(roots).rooted(self.id()) is Sequence,
            final(roots).rooted(self.id()).values() == old(roots).rooted(self.id()).values().push(
                value,
            ),
            forall|j: int|
                0 <= j < old(roots)@.len() && j != old(roots).position(self.id()) ==> final(roots)@[j]
                    == old(roots)@[j],
            final(roots).has(self.id()),
            old(roots).others_kept(final(roots), self.id()),
    {
        let mut one = Vec::new();
        one.push(value);
        roots.append_to_sequence(self.id, &mut one);
        proof {
            assert(seq![value] =~= Seq::<T>::empty().push(value));
        }
    }

    /// Appends `items`, in order, to the rooted elements.
    pub fn extend<T>(&self, roots: &mut RootedTraceableSet<T>, items: Vec<T>)
        requires
            old(roots).wf(),
            old(roots).has(self.id()),
            old(roots).rooted(self.id()) is Sequence,
        ensures
            final(roots).wf(),
            final(roots).issued() == old(roots).issued(),
            final(roots).ids() == old(roots).ids(),
            final(roots)@.len() == old(roots)@.len(),
            final(roots).position(self.id()) == old(roots).position(self.id()),
            final(roots).rooted(self.id()) is Sequence,
            final(roots).rooted(self.id()).values() == old(roots).rooted(self.id()).values()
                + items@,
            forall|j: int|
                0 <= j < old(roots)@.len() && j != old(roots).position(self.id()) ==> final(roots)@[j]
                    == old(roots)@[j],
            final(roots).has(self.id()),
            old(roots).others_kept(final(roots), self.id()),
    {
        let mut items = items;
        roots.append_to_sequence(self.id, &mut items);
    }

    /// Ends the guard's scope: drops every element while they are still
    /// rooted, then deregisters the sequence and hands back its storage,
    /// empty.
    pub fn unroot<T>(self, roots: &mut RootedTraceableSet<T>) -> (r: RootableVec<T>)
        requires
            old(roots).wf(),
            old(roots).has(self.id()),
            old(roots).rooted(self.id()) is Sequence,
        ensures
            final(roots).wf(),
            final(roots).issued() == old(roots).issued(),
            r@ == Seq::<T>::empty(),
            final(roots)@ == old(roots)@.remove(old(roots).position(self.id())),
            final(roots).ids() == old(roots).ids().remove(old(roots).position(self.id())),
            !final(roots).has(self.id()),
            old(roots).others_kept(final(roots), self.id()),
    {
        let ghost before = *roots;
        roots.clear_sequence(self.id);
        let ghost pos = before.position(self.id);
        let _emptied = roots.remove(self.id);
        proof {
            assert(roots@ =~= before@.remove(pos));
        }
        RootableVec { v: Vec::new() }
    }
}

impl<T: JSTraceable> RootedTraceableSet<T> {
    /// The edges of every rooted value, in registration order.
    pub open spec fn edges(&self) -> Seq<Edge> {
        entries_edges(self@)
    }

    /// Traces every rooted value, in registration order.
    pub fn trace(&self, tracer: &mut JSTracer)
        requires
            T::obeys_trace_model(),
        ensures
            final(tracer)@ == old(tracer)@ + self.edges(),
    {
        let mut i: usize = 0;
        while i < self.set.len()
            invariant
                T::obeys_trace_model(),
                i <= self@.len(),
                tracer@ == old(tracer)@ + entries_edges(self@.take(i as int)),
            decreases self@.len() - i,
        {
            self.set[i].rooted.trace(tracer);
            proof {
                lemma_entries_edges_take(self@, i as int);
                assert(tracer@ =~= old(tracer)@ + entries_edges(self@.take(i + 1)));
            }
            i = i + 1;
        }
        assert(self@.take(i as int) =~= self@);
    }
}

/// The collector's entry point for the stack roots of a thread: traces every
/// value that a live guard keeps in `roots`.
pub fn trace_traceables<T: JSTraceable>(roots: &RootedTraceableSet<T>, tracer: &mut JSTracer)
    requires
        T::obeys_trace_model(),
    ensures
        final(tracer)@ == old(tracer)@ + roots.edges(),
{
    roots.trace(tracer)
}

/// Registering pairs with a guard: when a guard with an identity that was
/// not live is constructed, the live identities become the old ones plus
/// that one.
pub proof fn lemma_register_adds_guard<T>(
    before: &RootedTraceableSet<T>,
    after: &RootedTraceableSet<T>,
    id: u64,
)
    requires
        !before.has(id),
        after.ids() == before.ids().push(id),
    ensures
        after.has(id),
        after.ids().to_set() == before.ids().to_set().insert(id),
        after.ids().len() == before.ids().len() + 1,
{
    assert(after.ids()[after.ids().len() - 1] == id);
    assert(after.ids().to_set() =~= before.ids().to_set().insert(id)) by {
        assert forall|x: u64| after.ids().contains(x) <==> before.ids().contains(x) || x == id by {
            if after.ids().contains(x) {
                let k = choose|k: int| 0 <= k < after.ids().len() && after.ids()[k] == x;
                if k < before.ids().len() {
                    assert(before.ids()[k] == x);
                }
            }
            if before.ids().contains(x) {
                let k = choose|k: int| 0 <= k < before.ids().len() && before.ids()[k] == x;
                assert(after.ids()[k] == x);
            }
        }
    }
}

/// Deregistering pairs with a guard: when a live guard is destroyed, the
/// live identities become the old ones less that one, and it is no longer
/// registered, so destroying it a second time is refused.
pub proof fn lemma_unregister_removes_guard<T>(
    before: &RootedTraceableSet<T>,
    after: &RootedTraceableSet<T>,
    id: u64,
)
    requires
        before.wf(),
        before.has(id),
        after.ids() == before.ids().remove(before.position(id)),
    ensures
        !after.has(id),
        after.ids().to_set() == before.ids().to_set().remove(id),
        after.ids().len() == before.ids().len() - 1,
{
    let pos = before.position(id);
    assert(before.ids()[pos] == id);
    assert forall|x: u64| after.ids().contains(x) <==> before.ids().contains(x) && x != id by {
        if after.ids().contains(x) {
            let k = choose|k: int| 0 <= k < after.ids().len() && after.ids()[k] == x;
            let ok = if k < pos { k } else { k + 1 };
            assert(after.ids()[k] == before.ids()[ok]);
            assert(ok != pos);
        }
        if before.ids().contains(x) && x != id {
            let k = choose|k: int| 0 <= k < before.ids().len() && before.ids()[k] == x;
            assert(k != pos);
            let nk = if k < pos { k } else { k - 1 };
            assert(after.ids()[nk] == x);
        }
    }
    assert(after.ids().to_set() =~= before.ids().to_set().remove(id));
}

/// Tracing the roots is idempotent: the registry is only read, so two passes
/// in a row over an unchanged registry record the same edges, wherever each
/// visitor started.
pub proof fn lemma_retrace_same_edges<T: JSTraceable>(
    roots: &RootedTraceableSet<T>,
    first_before: Seq<Edge>,
    first_after: Seq<Edge>,
    second_before: Seq<Edge>,
    second_after: Seq<Edge>,
)
    requires
        first_after == first_before + roots.edges(),
        second_after == second_before + roots.edges(),
    ensures
        first_after.skip(first_before.len() as int) == second_after.skip(
            second_before.len() as int,
        ),
        first_after.skip(first_before.len() as int) == roots.edges(),
{
    assert(first_after.skip(first_before.len() as int) =~= roots.edges());
    assert(second_after.skip(second_before.len() as int) =~= roots.edges());
}

} // verus!
