//! Generational-handle arenas.
//!
//! An [`Arena`] owns values of one kind and issues a fresh [`Handle`] on
//! every insert. A handle is a (slot index, generation) pair: when a slot is
//! freed its generation is retired for good, so a stale handle can never
//! alias a value that later reuses the slot — lookup on it fails instead.
//!
//! The arena's model is the map from live handles to their values
//! ([`Arena::view`]), together with the set of all handles ever issued
//! ([`Arena::issued`]): `insert` extends the map with a handle outside that
//! set, `remove` deletes exactly one key, and neither moves any other entry.

use vstd::prelude::*;

verus! {

/// An opaque (slot index, generation) pair identifying one resource inside
/// one specific arena.
#[derive(Clone, Copy, Debug, PartialEq, Eq, Structural)]
pub struct Handle {
    pub index: usize,
    pub generation: u64,
}

#[derive(Debug)]
enum Slot<T> {
    /// Empty and available for reuse.
    Free,
    /// Empty and permanently retired (its generation space is exhausted).
    Dead,
    /// Holds a live value under the given generation.
    Occupied { generation: u64, value: T },
}

/// A store that owns values of one kind and issues generational handles.
pub struct Arena<T> {
    slots: Vec<Slot<T>>,
    free: Vec<usize>,
    /// The generation the next reused slot will carry; strictly above the
    /// generation of every handle whose slot is free.
    counter: u64,
    /// Every handle this arena has ever returned from `insert`.
    issued: Ghost<Set<Handle>>,
}

impl<T> Arena<T> {
    /// The live contents: each resolvable handle mapped to its value.
    pub closed spec fn view(&self) -> Map<Handle, T> {
        Map::new(
            |h: Handle|
                h.index < self.slots@.len() && match self.slots@[h.index as int] {
                    Slot::Occupied { generation, .. } => generation == h.generation,
                    _ => false,
                },
            |h: Handle|
                match self.slots@[h.index as int] {
                    Slot::Occupied { value, .. } => value,
                    Slot::Free => self.slots@[h.index as int]->Occupied_value,
                    Slot::Dead => self.slots@[h.index as int]->Occupied_value,
                },
        )
    }

    /// Every handle ever returned by `insert`, resolvable or not.
    pub closed spec fn issued(&self) -> Set<Handle> {
        self.issued@
    }

    /// Number of slots ever allocated; every issued handle's index is below
    /// it.
    pub closed spec fn slot_count(&self) -> nat {
        self.slots@.len()
    }

    /// Internal consistency of slots, free list, counter and issued set.
    pub closed spec fn wf(&self) -> bool {
        &&& forall|h: Handle|
            self.issued@.contains(h) ==> h.index < self.slots@.len()
        &&& forall|h: Handle|
            self.issued@.contains(h) && self.slots@[h.index as int] is Free
                ==> h.generation < self.counter
        &&& forall|h: Handle|
            self.issued@.contains(h) && self.slots@[h.index as int] is Occupied
                ==> h.generation <= self.slots@[h.index as int]->Occupied_generation
        &&& forall|i: usize|
            i < self.slots@.len() && self.slots@[i as int] is Occupied ==> self.issued@.contains(
                Handle {
                    index: i,
                    generation: self.slots@[i as int]->Occupied_generation,
                },
            )
        &&& forall|k: int|
            0 <= k < self.free@.len() ==> (self.free@[k] as int) < self.slots@.len()
                && self.slots@[self.free@[k] as int] is Free
        &&& forall|i: usize|
            i < self.slots@.len() && self.slots@[i as int] is Free ==> self.free@.contains(i)
        &&& forall|k1: int, k2: int|
            0 <= k1 < self.free@.len() && 0 <= k2 < self.free@.len() && k1 != k2
                ==> self.free@[k1] != self.free@[k2]
    }

    /// A new, empty arena.
    pub fn new() -> (r: Arena<T>)
        ensures
            r.wf(),
            r@ == Map::<Handle, T>::empty(),
            r.issued() == Set::<Handle>::empty(),
            r.slot_count() == 0,
    {
        let r = Arena { slots: Vec::new(), free: Vec::new(), counter: 0, issued: Ghost(Set::empty()) };
        proof {
            assert(r@ =~= Map::<Handle, T>::empty());
        }
        r
    }

    /// Inserts a value and returns a handle to it. The handle is fresh:
    /// it differs from every handle this arena has ever issued, and every
    /// other entry keeps its value.
    pub fn insert(&mut self, value: T) -> (r: Handle)
        requires
            old(self).wf(),
        ensures
            final(self).wf(),
            !old(self).issued().contains(r),
            final(self).issued() == old(self).issued().insert(r),
            !old(self)@.contains_key(r),
            final(self)@ == old(self)@.insert(r, value),
            final(self).slot_count() >= old(self).slot_count(),
            r.index < final(self).slot_count(),
    {
        let popped = self.free.pop();
        let ghost old_self = *old(self);
        match popped {
            Some(i) => {
                let g = self.counter;
                let r = Handle { index: i, generation: g };
                proof {
                    // The popped index is a valid free slot.
                    assert(old_self.free@[old_self.free@.len() - 1] == i);
                    assert(self.slots@[i as int] is Free);
                    // Freshness: any issued handle at this index has a
                    // smaller generation.
                    assert(!old_self.issued@.contains(r));
                }
                self.slots[i] = Slot::Occupied { generation: g, value };
                proof {
                    self.issued@ = self.issued@.insert(r);
                    // Remaining free entries still point at free slots and
                    // stay duplicate-free.
                    assert(self.free@ == old_self.free@.drop_last());
                    assert forall|j: usize|
                        j < self.slots@.len() && self.slots@[j as int] is Free implies self
                        .free@.contains(j) by {
                        assert(old_self.slots@[j as int] is Free);
                        assert(old_self.free@.contains(j));
                        let k = choose|k: int|
                            0 <= k < old_self.free@.len() && old_self.free@[k] == j;
                        // The new occupant lives at index i, so j points
                        // elsewhere, and only i's entry left the free list.
                        assert(j != i);
                        assert(old_self.free@[old_self.free@.len() - 1] == i);
                        assert(k != old_self.free@.len() - 1);
                        assert(self.free@[k] == j);
                        assert(self.free@.contains(j));
                    }
                    assert(self@ =~= old_self@.insert(r, value));
                }
                r
            },
            None => {
                let i = self.slots.len();
                let g = self.counter;
                let r = Handle { index: i, generation: g };
                self.slots.push(Slot::Occupied { generation: g, value });
                proof {
                    self.issued@ = self.issued@.insert(r);
                    assert(self@ =~= old_self@.insert(r, value));
                }
                r
            },
        }
    }

    /// Number of slots ever allocated, as an executable value.
    pub fn slot_len(&self) -> (r: usize)
        ensures
            r == self.slot_count(),
    {
        self.slots.len()
    }

    /// Resolves a handle: its value if live, `None` if the slot was freed
    /// or its generation does not match.
    pub fn get(&self, h: Handle) -> (r: Option<&T>)
        ensures
            match r {
                Some(v) => self@.contains_key(h) && *v == self@[h],
                None => !self@.contains_key(h),
            },
    {
        if h.index >= self.slots.len() {
            return None;
        }
        match &self.slots[h.index] {
            Slot::Occupied { generation, value } => {
                if *generation == h.generation {
                    Some(value)
                } else {
                    None
                }
            },
            _ => None,
        }
    }

    /// Whether the handle currently resolves.
    pub fn contains(&self, h: Handle) -> (r: bool)
        ensures
            r == self@.contains_key(h),
    {
        match self.get(h) {
            Some(_) => true,
            None => false,
        }
    }

    /// Replaces the value a live handle resolves to; returns whether the
    /// handle resolved. No other entry moves either way.
    pub fn update(&mut self, h: Handle, value: T) -> (r: bool)
        requires
            old(self).wf(),
        ensures
            final(self).wf(),
            final(self).issued() == old(self).issued(),
            final(self).slot_count() == old(self).slot_count(),
            r == old(self)@.contains_key(h),
            old(self)@.contains_key(h) ==> final(self)@ == old(self)@.insert(h, value),
            !old(self)@.contains_key(h) ==> final(self)@ == old(self)@,
    {
        if h.index >= self.slots.len() {
            return false;
        }
        let live = match &self.slots[h.index] {
            Slot::Occupied { generation, .. } => *generation == h.generation,
            _ => false,
        };
        if !live {
            return false;
        }
        self.slots[h.index] = Slot::Occupied { generation: h.generation, value };
        proof {
            assert(self@ =~= old(self)@.insert(h, value));
        }
        true
    }

    /// Removes the value a handle resolves to, if any. Exactly that entry
    /// leaves the map; the handle can never resolve again, and handles
    /// issued later never equal it.
    pub fn remove(&mut self, h: Handle) -> (r: Option<T>)
        requires
            old(self).wf(),
        ensures
            final(self).wf(),
            final(self).issued() == old(self).issued(),
            final(self).slot_count() == old(self).slot_count(),
            old(self)@.contains_key(h) ==> r is Some && final(self)@ == old(self)@.remove(h),
            !old(self)@.contains_key(h) ==> r is None && final(self)@ == old(self)@,
    {
        if h.index >= self.slots.len() {
            return None;
        }
        let live = match &self.slots[h.index] {
            Slot::Occupied { generation, .. } => *generation == h.generation,
            _ => false,
        };
        if !live {
            return None;
        }
        let retire = h.generation == u64::MAX;
        let mut taken: Slot<T> = if retire {
            Slot::Dead
        } else {
            Slot::Free
        };
        let slot_ref = &mut self.slots[h.index];
        core::mem::swap(slot_ref, &mut taken);
        let r = match taken {
            Slot::Occupied { value, .. } => Some(value),
            _ => None,
        };
        if !retire {
            // h.index is not on the free list yet: every free entry points
            // at a free slot, and this slot was occupied.
            self.free.push(h.index);
            if self.counter <= h.generation {
                self.counter = h.generation + 1;
            }
        }
        proof {
            assert(old(self).slots@[h.index as int] is Occupied);
            assert(old(self).slots@[h.index as int]->Occupied_generation == h.generation);
            if !retire {
                assert(self.free@ == old(self).free@.push(h.index));
                assert(h.generation < self.counter);
                // The freed slot was occupied, so no free entry pointed at
                // it before; the pushed entry is the only new one.
                assert forall|k: int|
                    0 <= k < old(self).free@.len() implies old(self).free@[k] != h.index by {
                    assert(old(self).slots@[old(self).free@[k] as int] is Free);
                }
                assert forall|hh: Handle|
                    self.issued@.contains(hh) && self.slots@[hh.index as int] is Free
                        implies hh.generation < self.counter by {
                    if hh.index == h.index {
                        assert(hh.generation <= h.generation);
                    } else {
                        assert(old(self).slots@[hh.index as int] is Free);
                        assert(hh.generation < old(self).counter);
                    }
                }
                assert forall|i: usize|
                    i < self.slots@.len() && self.slots@[i as int] is Free implies self
                    .free@.contains(i) by {
                    if i == h.index {
                        assert(self.free@[self.free@.len() - 1] == h.index);
                    } else {
                        assert(old(self).slots@[i as int] is Free);
                        assert(old(self).free@.contains(i));
                        let k = choose|k: int|
                            0 <= k < old(self).free@.len() && old(self).free@[k] == i;
                        assert(self.free@[k] == i);
                    }
                }
            } else {
                assert forall|i: usize|
                    i < self.slots@.len() && self.slots@[i as int] is Free implies self
                    .free@.contains(i) by {
                    assert(old(self).slots@[i as int] is Free);
                    assert(old(self).free@.contains(i));
                }
            }
            assert(self@ =~= old(self)@.remove(h));
        }
        r
    }

    /// Law: handle integrity across later inserts. A handle the arena has
    /// issued and since removed can never resolve again: an insert extends
    /// the live map only with a handle outside the issued set, so the
    /// removed key stays absent and every other entry keeps its value.
    pub proof fn lemma_removed_handle_stays_stale(
        m: Map<Handle, T>,
        issued: Set<Handle>,
        h: Handle,
        fresh: Handle,
        v: T,
    )
        requires
            issued.contains(h),
            !m.contains_key(h),
            !issued.contains(fresh),
        ensures
            !m.insert(fresh, v).contains_key(h),
            forall|other: Handle|
                other != fresh && #[trigger] m.insert(fresh, v).contains_key(other)
                    ==> m.contains_key(other) && m.insert(fresh, v)[other] == m[other],
    {
    }

    /// A handle in the live map indexes an existing slot.
    pub proof fn lemma_view_index_bound(&self, h: Handle)
        requires
            self@.contains_key(h),
        ensures
            h.index < self.slot_count(),
    {
    }

    /// Distinct live handles occupy distinct slots.
    pub proof fn lemma_distinct_indices(&self, h1: Handle, h2: Handle)
        requires
            self@.contains_key(h1),
            self@.contains_key(h2),
            h1 != h2,
        ensures
            h1.index != h2.index,
    {
    }
}

} // verus!
