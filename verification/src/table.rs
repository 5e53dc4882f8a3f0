//! The entity table: the live collection of tracked entities of one kind,
//! keyed by remote identity, each entity holding a pending mutation
//! accumulator and an optional published (current) snapshot.
//!
//! Field-mutation events write into `pending`; the commit sentinel publishes
//! `pending` as `current` (an arrival if nothing was published before, an
//! update otherwise); removal deletes the whole slot. The pending accumulator
//! is retained across commits, because the protocols define mutations as
//! incremental diffs on top of the last-committed values.

use vstd::prelude::*;

use crate::identity::RemoteIdentity;

verus! {

/// A snapshot type that can produce an independent copy of itself with the
/// same abstract value, so a commit can publish a frozen copy while the
/// pending accumulator continues to change.
pub trait Duplicable: View + Sized {
    /// Returns a copy with the same abstract value.
    fn dup(&self) -> (r: Self)
        ensures
            r@ == self@,
    ;
}

/// Returns an element-wise copy of a vector of plain values.
pub fn copy_vec<T: Copy>(v: &Vec<T>) -> (r: Vec<T>)
    ensures
        r@ == v@,
{
    let mut r: Vec<T> = Vec::new();
    let mut i: usize = 0;
    while i < v.len()
        invariant
            i <= v@.len(),
            r@ == v@.subrange(0, i as int),
        decreases v@.len() - i,
    {
        r.push(v[i]);
        proof {
            assert(r@ =~= v@.subrange(0, i + 1));
        }
        i = i + 1;
    }
    proof {
        assert(r@ =~= v@);
    }
    r
}

/// The abstract value of an optional snapshot.
pub open spec fn opt_view<S: View>(o: Option<S>) -> Option<S::V> {
    match o {
        Some(c) => Some(c@),
        None => None,
    }
}

/// The abstract value of one tracked entity's publication state: its pending
/// accumulator and its published snapshot, if any.
pub ghost struct SlotView<V> {
    /// The pending mutation accumulator.
    pub pending: V,
    /// The published snapshot, absent until the first commit.
    pub current: Option<V>,
}

/// The abstract publication state of a slot.
pub open spec fn slot_view<S: View>(s: Slot<S>) -> SlotView<S::V> {
    SlotView { pending: s.pending@, current: opt_view(s.current) }
}

/// One tracked entity: its identity, its pending mutation accumulator, and
/// its published snapshot, absent until the first commit sentinel.
#[derive(Debug)]
pub struct Slot<S> {
    /// The remote identity this entity is keyed by.
    pub id: RemoteIdentity,
    /// The pending mutation accumulator; never observed by consumers.
    pub pending: S,
    /// The last published snapshot, if any commit has happened.
    pub current: Option<S>,
}

/// The snapshot a removal notice carries: the published one if any commit
/// happened, else whatever had accumulated as pending.
pub open spec fn spec_removal_snapshot<S>(slot: Slot<S>) -> S {
    match slot.current {
        Some(c) => c,
        None => slot.pending,
    }
}

/// The live collection of tracked entities of one kind, in creation order.
#[derive(Debug)]
pub struct EntityTable<S> {
    /// The slots, one per live entity, in creation order.
    pub slots: Vec<Slot<S>>,
}

impl<S: Duplicable> EntityTable<S> {
    /// The table's contents as a sequence of slots.
    pub open spec fn s(&self) -> Seq<Slot<S>> {
        self.slots@
    }

    /// Whether some live entity is keyed by `id`.
    pub open spec fn spec_contains(&self, id: RemoteIdentity) -> bool {
        exists|i: int| 0 <= i < self.s().len() && (#[trigger] self.s()[i]).id == id
    }

    /// Well-formed: no two slots share an identity.
    pub open spec fn wf(&self) -> bool {
        forall|i: int, j: int|
            0 <= i < j < self.s().len() ==> (#[trigger] self.s()[i]).id != (
            #[trigger] self.s()[j]).id
    }

    /// Creates an empty table.
    pub fn new() -> (r: Self)
        ensures
            r.s() =~= Seq::<Slot<S>>::empty(),
            r.wf(),
    {
        EntityTable { slots: Vec::new() }
    }

    /// The number of live entities.
    pub fn len(&self) -> (r: usize)
        ensures
            r == self.s().len(),
    {
        self.slots.len()
    }

    /// Finds the slot index of the entity keyed by `id`, if one is live.
    pub fn position(&self, id: RemoteIdentity) -> (r: Option<usize>)
        ensures
            match r {
                Some(i) => i < self.s().len() && self.s()[i as int].id == id,
                None => !self.spec_contains(id),
            },
    {
        let mut i: usize = 0;
        while i < self.slots.len()
            invariant
                i <= self.s().len(),
                forall|j: int| 0 <= j < i ==> (#[trigger] self.s()[j]).id != id,
            decreases self.s().len() - i,
        {
            if self.slots[i].id.id == id.id {
                return Some(i);
            }
            i = i + 1;
        }
        None
    }

    /// Returns whether some live entity is keyed by `id`.
    pub fn contains(&self, id: RemoteIdentity) -> (r: bool)
        ensures
            r == self.spec_contains(id),
    {
        self.position(id).is_some()
    }

    /// Returns the published snapshot of the entity keyed by `id`, or
    /// nothing if the entity is not tracked or has never been committed.
    pub fn current_of(&self, id: RemoteIdentity) -> (r: Option<&S>)
        requires
            self.wf(),
        ensures
            match r {
                Some(c) => exists|i: int|
                    0 <= i < self.s().len() && (#[trigger] self.s()[i]).id == id && self.s()[i].current
                        == Some(*c),
                None => forall|i: int|
                    0 <= i < self.s().len() && (#[trigger] self.s()[i]).id == id ==> self.s()[i].current
                        is None,
            },
    {
        match self.position(id) {
            Some(i) => {
                let ghost ii = i as int;
                match &self.slots[i].current {
                    Some(c) => {
                        proof {
                            assert(0 <= ii < self.s().len() && self.s()[ii].id == id
                                && self.s()[ii].current == Some(*c));
                        }
                        Some(c)
                    },
                    None => {
                        proof {
                            assert forall|j: int|
                                0 <= j < self.s().len() && (#[trigger] self.s()[j]).id
                                    == id implies self.s()[j].current is None by {
                                if j != ii {
                                    assert(self.s()[j].id != self.s()[ii].id);
                                }
                            }
                        }
                        None
                    },
                }
            },
            None => None,
        }
    }

    /// Inserts a new entity with an empty publication history.
    pub fn insert_new(&mut self, id: RemoteIdentity, pending: S)
        requires
            old(self).wf(),
            !old(self).spec_contains(id),
        ensures
            final(self).wf(),
            final(self).s().len() == old(self).s().len() + 1,
            forall|j: int| 0 <= j < old(self).s().len() ==> final(self).s()[j] == old(self).s()[j],
            final(self).s().last().id == id,
            final(self).s().last().pending == pending,
            final(self).s().last().current is None,
            final(self).spec_contains(id),
    {
        let slot = Slot { id, pending, current: None };
        let ghost snap = slot;
        self.slots.push(slot);
        proof {
            assert(self.s() =~= old(self).s().push(snap));
            assert(self.s()[self.s().len() - 1] == snap);
            assert forall|i: int, j: int| 0 <= i < j < self.s().len() implies (
            #[trigger] self.s()[i]).id != (#[trigger] self.s()[j]).id by {
                if j == self.s().len() - 1 {
                    assert(self.s()[i] == old(self).s()[i]);
                }
            }
        }
    }

    /// Publishes the pending accumulator of the slot at index `i` as its
    /// current snapshot, and reports whether this was the first publication
    /// (an arrival) or a repeat one (an update). The pending accumulator is
    /// retained unchanged.
    pub fn commit_at(&mut self, i: usize) -> (was_new: bool)
        requires
            old(self).wf(),
            i < old(self).s().len(),
        ensures
            final(self).wf(),
            final(self).s().len() == old(self).s().len(),
            was_new == (old(self).s()[i as int].current is None),
            forall|j: int| 0 <= j < final(self).s().len() && j != i ==> final(self).s()[j] == old(self).s()[j],
            final(self).s()[i as int].id == old(self).s()[i as int].id,
            final(self).s()[i as int].pending == old(self).s()[i as int].pending,
            final(self).s()[i as int].current matches Some(c) && c@ == old(self).s()[i as int].pending@,
    {
        let mut slot = self.slots.remove(i);
        let was_new = slot.current.is_none();
        let copy = slot.pending.dup();
        slot.current = Some(copy);
        let ghost snap = slot;
        self.slots.insert(i, slot);
        proof {
            assert(self.s() =~= old(self).s().update(i as int, snap));
            assert forall|a: int, b: int| 0 <= a < b < self.s().len() implies (
            #[trigger] self.s()[a]).id != (#[trigger] self.s()[b]).id by {
                assert(self.s()[a].id == old(self).s()[a].id);
                assert(self.s()[b].id == old(self).s()[b].id);
            }
        }
        was_new
    }

    /// Removes and returns the slot at index `i`.
    pub fn remove_at(&mut self, i: usize) -> (slot: Slot<S>)
        requires
            old(self).wf(),
            i < old(self).s().len(),
        ensures
            final(self).wf(),
            slot == old(self).s()[i as int],
            final(self).s() == old(self).s().remove(i as int),
            !final(self).spec_contains(slot.id),
    {
        let slot = self.slots.remove(i);
        proof {
            assert forall|a: int, b: int| 0 <= a < b < self.s().len() implies (
            #[trigger] self.s()[a]).id != (#[trigger] self.s()[b]).id by {
                let a0 = if a < i { a } else { a + 1 };
                let b0 = if b < i { b } else { b + 1 };
                assert(self.s()[a] == old(self).s()[a0]);
                assert(self.s()[b] == old(self).s()[b0]);
            }
            assert forall|a: int| 0 <= a < self.s().len() implies (#[trigger] self.s()[a]).id
                != slot.id by {
                let a0 = if a < i { a } else { a + 1 };
                assert(self.s()[a] == old(self).s()[a0]);
            }
        }
        slot
    }

    /// Puts a slot back at index `i`; used to reinsert a slot taken out with
    /// `remove_at` after mutating its pending accumulator.
    pub fn insert_at(&mut self, i: usize, slot: Slot<S>)
        requires
            old(self).wf(),
            i <= old(self).s().len(),
            !old(self).spec_contains(slot.id),
        ensures
            final(self).wf(),
            final(self).s() == old(self).s().insert(i as int, slot),
            final(self).s().len() == old(self).s().len() + 1,
            final(self).s()[i as int] == slot,
            forall|j: int| 0 <= j < i ==> final(self).s()[j] == old(self).s()[j],
            forall|j: int| i < j < final(self).s().len() ==> final(self).s()[j] == old(self).s()[j - 1],
    {
        let ghost snap = slot;
        self.slots.insert(i, slot);
        proof {
            assert forall|a: int, b: int| 0 <= a < b < self.s().len() implies (
            #[trigger] self.s()[a]).id != (#[trigger] self.s()[b]).id by {
                if a == i {
                    let b0 = b - 1;
                    assert(self.s()[b] == old(self).s()[b0]);
                } else if b == i {
                    let a0 = a;
                    assert(self.s()[a] == old(self).s()[a0]);
                } else {
                    let a0 = if a < i { a } else { a - 1 };
                    let b0 = if b < i { b } else { b - 1 };
                    assert(self.s()[a] == old(self).s()[a0]);
                    assert(self.s()[b] == old(self).s()[b0]);
                }
            }
        }
    }

    /// Publishes every slot's pending accumulator, in table order, and
    /// reports for each entity its identity and whether the publication was
    /// its first (an arrival). Used for manager-level commit sentinels that
    /// the protocol defines as a fan-out over all entities announced so far.
    pub fn commit_all(&mut self) -> (r: Vec<(RemoteIdentity, bool)>)
        requires
            old(self).wf(),
        ensures
            final(self).wf(),
            final(self).s().len() == old(self).s().len(),
            forall|j: int|
                0 <= j < final(self).s().len() ==> {
                    &&& (#[trigger] final(self).s()[j]).id == old(self).s()[j].id
                    &&& final(self).s()[j].pending == old(self).s()[j].pending
                    &&& final(self).s()[j].current matches Some(c) && c@ == old(self).s()[j].pending@
                },
            r@.len() == final(self).s().len(),
            forall|j: int|
                0 <= j < r@.len() ==> #[trigger] r@[j] == (
                old(self).s()[j].id,
                old(self).s()[j].current is None,
                ),
    {
        let mut r: Vec<(RemoteIdentity, bool)> = Vec::new();
        let mut i: usize = 0;
        while i < self.slots.len()
            invariant
                self.wf(),
                self.s().len() == old(self).s().len(),
                i <= self.s().len(),
                forall|j: int|
                    0 <= j < i ==> {
                        &&& (#[trigger] self.s()[j]).id == old(self).s()[j].id
                        &&& self.s()[j].pending == old(self).s()[j].pending
                        &&& self.s()[j].current matches Some(c) && c@ == old(self).s()[j].pending@
                    },
                forall|j: int| i <= j < self.s().len() ==> self.s()[j] == old(self).s()[j],
                r@.len() == i,
                forall|j: int|
                    0 <= j < i ==> #[trigger] r@[j] == (
                    old(self).s()[j].id,
                    old(self).s()[j].current is None,
                    ),
            decreases self.s().len() - i,
        {
            let id = self.slots[i].id;
            let was_new = self.commit_at(i);
            r.push((id, was_new));
            i = i + 1;
        }
        r
    }
}

} // verus!
