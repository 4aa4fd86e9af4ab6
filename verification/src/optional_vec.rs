//! A slot-reusing sparse vector.
//!
//! Insertion and index-based removal are O(1) and indices are stable
//! until removed: the container is a backing array of optional slots plus
//! a stack of free indices. A removed slot becomes a hole that later
//! insertions may fill; live slots keep their index for their whole
//! lifetime. The observable state is the partial map from slot index to
//! value ([`OptionalVec::live_map`]); holes are invisible to it.

use vstd::prelude::*;

verus! {

/// A sparse vector with O(1) insertion and removal and stable indices.
#[derive(Clone, Debug)]
pub struct OptionalVec<T> {
    pub values: Vec<Option<T>>,
    pub holes: Vec<usize>,
}

impl<T> OptionalVec<T> {
    /// The free-index stack matches the vacant slots exactly: every hole
    /// is a vacant slot in range, no hole is listed twice, and every
    /// vacant slot is listed.
    pub open spec fn wf(self) -> bool {
        &&& forall|j: int| 0 <= j < self.holes@.len() ==> (#[trigger] self.holes@[j]) < self.values@.len()
            && self.values@[self.holes@[j] as int] is None
        &&& forall|j1: int, j2: int| 0 <= j1 < j2 < self.holes@.len() ==> self.holes@[j1] != self.holes@[j2]
        &&& forall|i: int| 0 <= i < self.values@.len() && self.values@[i] is None ==> exists|j: int|
            0 <= j < self.holes@.len() && (#[trigger] self.holes@[j]) as int == i
    }

    /// The observable state: the partial map from live slot index to the
    /// value held there.
    pub open spec fn live_map(self) -> Map<int, T> {
        Map::new(
            |i: int| 0 <= i < self.values@.len() && self.values@[i] is Some,
            |i: int| self.values@[i]->Some_0,
        )
    }

    /// The number of live slots.
    pub open spec fn spec_len(self) -> int {
        self.values@.len() - self.holes@.len()
    }

    /// An empty container.
    pub fn new() -> (r: OptionalVec<T>)
        ensures
            r.wf(),
            r.values@ == Seq::<Option<T>>::empty(),
            r.holes@ == Seq::<usize>::empty(),
            r.live_map() == Map::<int, T>::empty(),
            r.spec_len() == 0,
    {
        let r = OptionalVec { values: Vec::new(), holes: Vec::new() };
        proof {
            assert(r.live_map() =~= Map::<int, T>::empty());
        }
        r
    }

    /// Inserts an element, reusing the most recently freed slot if one
    /// exists, and returns its index.
    pub fn insert(&mut self, elem: T) -> (idx: usize)
        requires
            old(self).wf(),
        ensures
            final(self).wf(),
            !old(self).live_map().dom().contains(idx as int),
            idx < final(self).values@.len(),
            final(self).values@[idx as int] is Some,
            final(self).live_map() == old(self).live_map().insert(idx as int, elem),
            final(self).spec_len() == old(self).spec_len() + 1,
            final(self).values@.len() >= old(self).values@.len(),
            old(self).holes@.len() > 0 ==> final(self).values@.len() == old(self).values@.len()
                && final(self).holes@ == old(self).holes@.drop_last() && idx == old(
                self,
            ).holes@.last(),
            old(self).holes@.len() == 0 ==> final(self).values@.len() == old(self).values@.len()
                + 1 && final(self).holes@ == old(self).holes@ && idx == old(self).values@.len(),
    {
        let idx: usize;
        if self.holes.len() > 0 {
            let ghost prev = *self;
            idx = self.holes[self.holes.len() - 1];
            self.holes.pop();
            self.values.set(idx, Some(elem));
            proof {
                assert(self.live_map() =~= prev.live_map().insert(idx as int, elem));
                assert forall|i: int|
                    0 <= i < self.values@.len() && self.values@[i] is None implies exists|j: int|
                    0 <= j < self.holes@.len() && (#[trigger] self.holes@[j]) as int
                        == i by {
                    assert(prev.values@[i] is None);
                    let j = choose|j: int|
                        0 <= j < prev.holes@.len() && (#[trigger] prev.holes@[j]) as int == i;
                    assert(j != prev.holes@.len() - 1);
                    assert(self.holes@[j] as int == i);
                }
            }
        } else {
            let ghost prev = *self;
            idx = self.values.len();
            self.values.push(Some(elem));
            proof {
                assert(self.live_map() =~= prev.live_map().insert(idx as int, elem));
            }
        }
        idx
    }

    /// Removes the element at `idx` if that slot is live, leaving a hole;
    /// removing a vacant or out-of-range index changes nothing.
    pub fn remove(&mut self, idx: usize)
        requires
            old(self).wf(),
        ensures
            final(self).wf(),
            final(self).live_map() == old(self).live_map().remove(idx as int),
            final(self).values@.len() == old(self).values@.len(),
            old(self).live_map().dom().contains(idx as int) ==> final(self).spec_len() == old(
                self,
            ).spec_len() - 1 && final(self).holes@ == old(self).holes@.push(idx),
            !old(self).live_map().dom().contains(idx as int) ==> *final(self) == *old(self),
    {
        let ghost prev = *self;
        if idx < self.values.len() {
            let live = match &self.values[idx] {
                Some(_) => true,
                None => false,
            };
            if live {
                self.values.set(idx, None);
                self.holes.push(idx);
                proof {
                    assert(self.live_map() =~= prev.live_map().remove(idx as int));
                    assert forall|j1: int, j2: int| 0 <= j1 < j2 < self.holes@.len()
                        implies self.holes@[j1] != self.holes@[j2] by {
                        if j2 == self.holes@.len() - 1 {
                            assert(prev.values@[prev.holes@[j1] as int] is None);
                        }
                    }
                    assert forall|i: int|
                        0 <= i < self.values@.len() && self.values@[i] is None implies exists|
                        j: int,
                    | 0 <= j < self.holes@.len() && (#[trigger] self.holes@[j]) as int == i by {
                        if i == idx as int {
                            assert(self.holes@[self.holes@.len() - 1] as int == i);
                        } else {
                            assert(prev.values@[i] is None);
                            let j = choose|j: int|
                                0 <= j < prev.holes@.len() && (#[trigger] prev.holes@[j]) as int
                                    == i;
                            assert(self.holes@[j] as int == i);
                        }
                    }
                }
            } else {
                proof {
                    assert(self.live_map() =~= prev.live_map().remove(idx as int));
                }
            }
        } else {
            proof {
                assert(self.live_map() =~= prev.live_map().remove(idx as int));
            }
        }
    }

    /// A reference to the element at a live slot.
    pub fn get(&self, idx: usize) -> (r: &T)
        requires
            self.wf(),
            self.live_map().dom().contains(idx as int),
        ensures
            *r == self.live_map()[idx as int],
    {
        self.values[idx].as_ref().unwrap()
    }

    /// Whether the slot at `idx` is live.
    pub fn contains_index(&self, idx: usize) -> (r: bool)
        requires
            self.wf(),
        ensures
            r == self.live_map().dom().contains(idx as int),
    {
        idx < self.values.len() && match &self.values[idx] {
            Some(_) => true,
            None => false,
        }
    }

    /// The free stack never outgrows the backing array: its entries are
    /// distinct indices into the array.
    pub proof fn lemma_holes_bound(self)
        requires
            self.wf(),
        ensures
            self.holes@.len() <= self.values@.len(),
            self.spec_len() >= 0,
    {
        let hs = self.holes@.map_values(|u: usize| u as int);
        assert(hs.no_duplicates()) by {
            assert forall|j1: int, j2: int| 0 <= j1 < hs.len() && 0 <= j2 < hs.len() && j1 != j2
                implies hs[j1] != hs[j2] by {
                if j1 < j2 {
                    assert(self.holes@[j1] != self.holes@[j2]);
                } else {
                    assert(self.holes@[j2] != self.holes@[j1]);
                }
            }
        }
        hs.unique_seq_to_set();
        let range = vstd::set_lib::set_int_range(0, self.values@.len() as int);
        vstd::set_lib::lemma_int_range(0, self.values@.len() as int);
        assert(hs.to_set().subset_of(range)) by {
            assert forall|x: int| hs.to_set().contains(x) implies range.contains(x) by {
                let j = choose|j: int| 0 <= j < hs.len() && hs[j] == x;
                assert(self.holes@[j] < self.values@.len());
            }
        }
        vstd::set_lib::lemma_len_subset(hs.to_set(), range);
    }

    /// The number of live slots.
    pub fn len(&self) -> (r: usize)
        requires
            self.wf(),
        ensures
            r == self.spec_len(),
    {
        proof {
            self.lemma_holes_bound();
        }
        self.values.len() - self.holes.len()
    }

    /// The size of the backing array: one past the largest index ever
    /// allocated.
    pub fn capacity(&self) -> (r: usize)
        ensures
            r == self.values@.len(),
    {
        self.values.len()
    }

    /// Whether the container has no holes: every allocated slot is live,
    /// so slot indices coincide with iteration order.
    pub fn is_dense(&self) -> (r: bool)
        requires
            self.wf(),
        ensures
            r == (self.holes@.len() == 0),
            r ==> forall|i: int| 0 <= i < self.values@.len() ==> self.values@[i] is Some,
    {
        self.holes.len() == 0
    }
}

impl<T> Default for OptionalVec<T> {
    /// An empty container.
    fn default() -> (r: OptionalVec<T>)
        ensures
            r.wf(),
            r.values@ == Seq::<Option<T>>::empty(),
            r.holes@ == Seq::<usize>::empty(),
            r.live_map() == Map::<int, T>::empty(),
            r.spec_len() == 0,
    {
        OptionalVec::new()
    }
}

} // verus!
