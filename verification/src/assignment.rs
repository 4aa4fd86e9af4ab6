//! The constraint-system recorder.
//!
//! A `ProvingAssignment` is populated while a circuit describes itself:
//! three aligned sparse stores hold the `A`, `B`, `C` rows of the
//! constraint matrices, and two stores hold the public-input and
//! auxiliary variable assignments. Constraint row `i` refers to the same
//! logical constraint in all three stores.
//!
//! Allocation is scoped: `push_namespace` opens a scope that records
//! every constraint and variable index allocated inside it, and
//! `pop_namespace` removes exactly those, so the observable state (the
//! live maps of all five stores and the remaining scope stack) returns
//! to what it was at the matching push. That rollback law is stated by
//! [`ProvingAssignment::scoped_since`] and carried as a postcondition
//! through every operation: pushing establishes it, allocating and
//! enforcing preserve it, and popping restores the snapshot exactly.

use vstd::prelude::*;
use crate::field::Fr;
use crate::optional_vec::OptionalVec;
use crate::r1cs::{Index, LinearCombination, SynthesisError, Variable};

verus! {

/// One open scope: the constraint rows and variables allocated since the
/// matching `push_namespace`.
#[derive(Clone, Debug)]
pub struct Namespace {
    pub constraint_indices: Vec<usize>,
    pub input_indices: Vec<usize>,
    pub aux_indices: Vec<usize>,
}

impl Namespace {
    /// A scope with nothing allocated yet.
    pub fn new() -> (r: Namespace)
        ensures
            r.constraint_indices@ == Seq::<usize>::empty(),
            r.input_indices@ == Seq::<usize>::empty(),
            r.aux_indices@ == Seq::<usize>::empty(),
    {
        Namespace {
            constraint_indices: Vec::new(),
            input_indices: Vec::new(),
            aux_indices: Vec::new(),
        }
    }
}

impl Default for Namespace {
    /// A scope with nothing allocated yet.
    fn default() -> (r: Namespace)
        ensures
            r.constraint_indices@ == Seq::<usize>::empty(),
            r.input_indices@ == Seq::<usize>::empty(),
            r.aux_indices@ == Seq::<usize>::empty(),
    {
        Namespace::new()
    }
}

/// The set of slot indices a scope recorded in one of its lists.
pub open spec fn frame_set(frame: Seq<usize>) -> Set<int> {
    Set::new(|i: int| exists|k: int| 0 <= k < frame.len() && (#[trigger] frame[k]) as int == i)
}

/// How one recorded index list relates a store's current live map to its
/// snapshot at the matching push: the recorded indices are distinct, all
/// live now, none were live at the snapshot, and removing them restores
/// the snapshot's live map exactly.
pub open spec fn frame_tracks<T>(frame: Seq<usize>, snap_map: Map<int, T>, cur: Map<int, T>) -> bool {
    &&& forall|k1: int, k2: int| 0 <= k1 < k2 < frame.len() ==> frame[k1] != frame[k2]
    &&& forall|k: int| 0 <= k < frame.len() ==> cur.dom().contains((#[trigger] frame[k]) as int)
        && !snap_map.dom().contains(frame[k] as int)
    &&& cur.remove_keys(frame_set(frame)) == snap_map
}

/// Whether a recorded index list is duplicate-free and entirely live in a
/// store's map; the part of `frame_tracks` that the rollback loops need.
pub open spec fn frame_distinct_live<T>(frame: Seq<usize>, m: Map<int, T>) -> bool {
    &&& forall|k1: int, k2: int| 0 <= k1 < k2 < frame.len() ==> frame[k1] != frame[k2]
    &&& forall|k: int| 0 <= k < frame.len() ==> m.dom().contains((#[trigger] frame[k]) as int)
}

/// Every coefficient of a stored row is canonical.
pub open spec fn row_coeffs_valid(row: Seq<(Fr, Index)>) -> bool {
    forall|k: int| 0 <= k < row.len() ==> (#[trigger] row[k]).0.is_valid()
}

/// The mutable store of an R1CS instance under construction.
#[derive(Clone, Debug)]
pub struct ProvingAssignment {
    pub at: OptionalVec<Vec<(Fr, Index)>>,
    pub bt: OptionalVec<Vec<(Fr, Index)>>,
    pub ct: OptionalVec<Vec<(Fr, Index)>>,
    pub input_assignment: OptionalVec<Fr>,
    pub aux_assignment: OptionalVec<Fr>,
    pub namespaces: Vec<Namespace>,
}

impl ProvingAssignment {
    /// Well-formedness: the five stores are well formed, the three
    /// constraint stores are aligned slot for slot, and every stored
    /// field element is canonical.
    pub open spec fn wf(self) -> bool {
        &&& self.at.wf()
        &&& self.bt.wf()
        &&& self.ct.wf()
        &&& self.input_assignment.wf()
        &&& self.aux_assignment.wf()
        &&& self.bt.values@.len() == self.at.values@.len()
        &&& self.ct.values@.len() == self.at.values@.len()
        &&& self.bt.holes@ == self.at.holes@
        &&& self.ct.holes@ == self.at.holes@
        &&& forall|i: int| self.at.live_map().dom().contains(i) ==> row_coeffs_valid(
            (#[trigger] self.at.live_map()[i])@,
        )
        &&& forall|i: int| self.bt.live_map().dom().contains(i) ==> row_coeffs_valid(
            (#[trigger] self.bt.live_map()[i])@,
        )
        &&& forall|i: int| self.ct.live_map().dom().contains(i) ==> row_coeffs_valid(
            (#[trigger] self.ct.live_map()[i])@,
        )
        &&& forall|i: int| self.input_assignment.live_map().dom().contains(i)
            ==> (#[trigger] self.input_assignment.live_map()[i]).is_valid()
        &&& forall|i: int| self.aux_assignment.live_map().dom().contains(i)
            ==> (#[trigger] self.aux_assignment.live_map()[i]).is_valid()
    }

    /// The rollback relation: `self` is `snap` with one more open scope
    /// on top, whose recorded indices are exactly what was allocated
    /// since the push, and removing them restores every store to the
    /// snapshot. Deeper scopes and everything allocated before the push
    /// are untouched.
    pub open spec fn scoped_since(self, snap: ProvingAssignment) -> bool {
        &&& self.wf()
        &&& snap.wf()
        &&& self.namespaces@.len() == snap.namespaces@.len() + 1
        &&& self.namespaces@.subrange(0, snap.namespaces@.len() as int) == snap.namespaces@
        &&& frame_tracks(
            self.namespaces@.last().constraint_indices@,
            snap.at.live_map(),
            self.at.live_map(),
        )
        &&& frame_tracks(
            self.namespaces@.last().constraint_indices@,
            snap.bt.live_map(),
            self.bt.live_map(),
        )
        &&& frame_tracks(
            self.namespaces@.last().constraint_indices@,
            snap.ct.live_map(),
            self.ct.live_map(),
        )
        &&& frame_tracks(
            self.namespaces@.last().input_indices@,
            snap.input_assignment.live_map(),
            self.input_assignment.live_map(),
        )
        &&& frame_tracks(
            self.namespaces@.last().aux_indices@,
            snap.aux_assignment.live_map(),
            self.aux_assignment.live_map(),
        )
        &&& self.at.spec_len() == snap.at.spec_len()
            + self.namespaces@.last().constraint_indices@.len()
        &&& self.bt.spec_len() == snap.bt.spec_len()
            + self.namespaces@.last().constraint_indices@.len()
        &&& self.ct.spec_len() == snap.ct.spec_len()
            + self.namespaces@.last().constraint_indices@.len()
        &&& self.input_assignment.spec_len() == snap.input_assignment.spec_len()
            + self.namespaces@.last().input_indices@.len()
        &&& self.aux_assignment.spec_len() == snap.aux_assignment.spec_len()
            + self.namespaces@.last().aux_indices@.len()
    }

    /// A fresh, empty constraint system.
    pub fn new() -> (r: ProvingAssignment)
        ensures
            r.wf(),
            r.at.live_map() == Map::<int, Vec<(Fr, Index)>>::empty(),
            r.bt.live_map() == Map::<int, Vec<(Fr, Index)>>::empty(),
            r.ct.live_map() == Map::<int, Vec<(Fr, Index)>>::empty(),
            r.input_assignment.live_map() == Map::<int, Fr>::empty(),
            r.aux_assignment.live_map() == Map::<int, Fr>::empty(),
            r.namespaces@ == Seq::<Namespace>::empty(),
            r.at.spec_len() == 0,
            r.input_assignment.spec_len() == 0,
            r.aux_assignment.spec_len() == 0,
    {
        ProvingAssignment {
            at: OptionalVec::new(),
            bt: OptionalVec::new(),
            ct: OptionalVec::new(),
            input_assignment: OptionalVec::new(),
            aux_assignment: OptionalVec::new(),
            namespaces: Vec::new(),
        }
    }

    /// Records `idx` in the innermost open scope's auxiliary list; with
    /// no open scope, does nothing.
    fn record_aux(&mut self, idx: usize)
        ensures
            old(self).namespaces@.len() == 0 ==> *final(self) == *old(self),
            old(self).namespaces@.len() > 0 ==> final(self).namespaces@.len() == old(
                self,
            ).namespaces@.len() && final(self).namespaces@.drop_last() == old(
                self,
            ).namespaces@.drop_last() && final(self).namespaces@.last().aux_indices@ == old(
                self,
            ).namespaces@.last().aux_indices@.push(idx) && final(self).namespaces@.last().constraint_indices@ == old(
                self,
            ).namespaces@.last().constraint_indices@ && final(self).namespaces@.last().input_indices@ == old(self).namespaces@.last().input_indices@,
            final(self).at == old(self).at,
            final(self).bt == old(self).bt,
            final(self).ct == old(self).ct,
            final(self).input_assignment == old(self).input_assignment,
            final(self).aux_assignment == old(self).aux_assignment,
    {
        if self.namespaces.len() > 0 {
            let mut ns = match self.namespaces.pop() {
                Some(ns) => ns,
                None => { return ; },
            };
            ns.aux_indices.push(idx);
            self.namespaces.push(ns);
            proof {
                assert(self.namespaces@.drop_last() =~= old(self).namespaces@.drop_last());
            }
        }
    }

    /// Records `idx` in the innermost open scope's input list; with no
    /// open scope, does nothing.
    fn record_input(&mut self, idx: usize)
        ensures
            old(self).namespaces@.len() == 0 ==> *final(self) == *old(self),
            old(self).namespaces@.len() > 0 ==> final(self).namespaces@.len() == old(
                self,
            ).namespaces@.len() && final(self).namespaces@.drop_last() == old(
                self,
            ).namespaces@.drop_last() && final(self).namespaces@.last().input_indices@ == old(
                self,
            ).namespaces@.last().input_indices@.push(idx) && final(self).namespaces@.last().constraint_indices@ == old(
                self,
            ).namespaces@.last().constraint_indices@ && final(self).namespaces@.last().aux_indices@ == old(self).namespaces@.last().aux_indices@,
            final(self).at == old(self).at,
            final(self).bt == old(self).bt,
            final(self).ct == old(self).ct,
            final(self).input_assignment == old(self).input_assignment,
            final(self).aux_assignment == old(self).aux_assignment,
    {
        if self.namespaces.len() > 0 {
            let mut ns = match self.namespaces.pop() {
                Some(ns) => ns,
                None => { return ; },
            };
            ns.input_indices.push(idx);
            self.namespaces.push(ns);
            proof {
                assert(self.namespaces@.drop_last() =~= old(self).namespaces@.drop_last());
            }
        }
    }

    /// Records `idx` in the innermost open scope's constraint list; with
    /// no open scope, does nothing.
    fn record_constraint(&mut self, idx: usize)
        ensures
            old(self).namespaces@.len() == 0 ==> *final(self) == *old(self),
            old(self).namespaces@.len() > 0 ==> final(self).namespaces@.len() == old(
                self,
            ).namespaces@.len() && final(self).namespaces@.drop_last() == old(
                self,
            ).namespaces@.drop_last() && final(self).namespaces@.last().constraint_indices@ == old(
                self,
            ).namespaces@.last().constraint_indices@.push(idx) && final(self).namespaces@.last().input_indices@ == old(
                self,
            ).namespaces@.last().input_indices@ && final(self).namespaces@.last().aux_indices@ == old(self).namespaces@.last().aux_indices@,
            final(self).at == old(self).at,
            final(self).bt == old(self).bt,
            final(self).ct == old(self).ct,
            final(self).input_assignment == old(self).input_assignment,
            final(self).aux_assignment == old(self).aux_assignment,
    {
        if self.namespaces.len() > 0 {
            let mut ns = match self.namespaces.pop() {
                Some(ns) => ns,
                None => { return ; },
            };
            ns.constraint_indices.push(idx);
            self.namespaces.push(ns);
            proof {
                assert(self.namespaces@.drop_last() =~= old(self).namespaces@.drop_last());
            }
        }
    }

    /// Allocates a private (auxiliary) variable holding `value` and
    /// returns its handle; the index is recorded in the innermost open
    /// scope, if any.
    pub fn alloc_aux(&mut self, value: Fr) -> (r: Variable)
        requires
            old(self).wf(),
            value.is_valid(),
        ensures
            final(self).wf(),
            exists|i: usize| r.index == Index::Aux(i) && !old(
                self,
            ).aux_assignment.live_map().dom().contains(i as int) && final(self).aux_assignment.live_map() == old(self).aux_assignment.live_map().insert(
                i as int,
                value,
            ),
            final(self).aux_assignment.spec_len() == old(self).aux_assignment.spec_len() + 1,
            final(self).at == old(self).at,
            final(self).bt == old(self).bt,
            final(self).ct == old(self).ct,
            final(self).input_assignment == old(self).input_assignment,
            old(self).namespaces@.len() == 0 ==> final(self).namespaces@ == old(self).namespaces@,
            forall|snap: ProvingAssignment| old(self).scoped_since(snap) ==> final(self).scoped_since(snap),
    {
        let idx = self.aux_assignment.insert(value);
        let ghost mid = *self;
        self.record_aux(idx);
        proof {
            assert(self.aux_assignment.live_map() == old(self).aux_assignment.live_map().insert(
                idx as int,
                value,
            ));
            assert forall|snap: ProvingAssignment| old(self).scoped_since(snap) implies
                self.scoped_since(snap) by {
                lemma_frame_grow::<Fr>(
                    old(self).namespaces@.last().aux_indices@,
                    idx,
                    value,
                    old(self).aux_assignment.live_map(),
                );
                assert(self.namespaces@.last().aux_indices@ =~= old(
                    self,
                ).namespaces@.last().aux_indices@.push(idx));
                assert(self.namespaces@.last().constraint_indices@ == old(
                    self,
                ).namespaces@.last().constraint_indices@);
                assert(self.namespaces@.last().input_indices@ == old(
                    self,
                ).namespaces@.last().input_indices@);
                assert(self.namespaces@.subrange(0, snap.namespaces@.len() as int) =~= old(
                    self,
                ).namespaces@.subrange(0, snap.namespaces@.len() as int));
            }
        }
        Variable::new_unchecked(Index::Aux(idx))
    }

    /// Allocates a public input variable holding `value` and returns its
    /// handle; the index is recorded in the innermost open scope, if any.
    pub fn alloc_input(&mut self, value: Fr) -> (r: Variable)
        requires
            old(self).wf(),
            value.is_valid(),
        ensures
            final(self).wf(),
            exists|i: usize| r.index == Index::Input(i) && !old(
                self,
            ).input_assignment.live_map().dom().contains(i as int) && final(self).input_assignment.live_map() == old(self).input_assignment.live_map().insert(
                i as int,
                value,
            ),
            final(self).input_assignment.spec_len() == old(self).input_assignment.spec_len() + 1,
            final(self).at == old(self).at,
            final(self).bt == old(self).bt,
            final(self).ct == old(self).ct,
            final(self).aux_assignment == old(self).aux_assignment,
            old(self).namespaces@.len() == 0 ==> final(self).namespaces@ == old(self).namespaces@,
            forall|snap: ProvingAssignment| old(self).scoped_since(snap) ==> final(self).scoped_since(snap),
    {
        let idx = self.input_assignment.insert(value);
        self.record_input(idx);
        proof {
            assert(self.input_assignment.live_map() == old(
                self,
            ).input_assignment.live_map().insert(idx as int, value));
            assert forall|snap: ProvingAssignment| old(self).scoped_since(snap) implies
                self.scoped_since(snap) by {
                lemma_frame_grow::<Fr>(
                    old(self).namespaces@.last().input_indices@,
                    idx,
                    value,
                    old(self).input_assignment.live_map(),
                );
                assert(self.namespaces@.last().input_indices@ =~= old(
                    self,
                ).namespaces@.last().input_indices@.push(idx));
                assert(self.namespaces@.last().constraint_indices@ == old(
                    self,
                ).namespaces@.last().constraint_indices@);
                assert(self.namespaces@.last().aux_indices@ == old(
                    self,
                ).namespaces@.last().aux_indices@);
                assert(self.namespaces@.subrange(0, snap.namespaces@.len() as int) =~= old(
                    self,
                ).namespaces@.subrange(0, snap.namespaces@.len() as int));
            }
        }
        Variable::new_unchecked(Index::Input(idx))
    }

    /// Appends one constraint `a * b = c`: the three rows are stored at
    /// the same fresh index across the three stores, and that index is
    /// recorded in the innermost open scope, if any.
    pub fn enforce(&mut self, a: LinearCombination, b: LinearCombination, c: LinearCombination)
        requires
            old(self).wf(),
            a.is_valid(),
            b.is_valid(),
            c.is_valid(),
        ensures
            final(self).wf(),
            exists|i: usize| !old(self).at.live_map().dom().contains(i as int)
                && final(self).at.live_map() == old(self).at.live_map().insert(i as int, a.terms)
                && final(self).bt.live_map() == old(self).bt.live_map().insert(i as int, b.terms)
                && final(self).ct.live_map() == old(self).ct.live_map().insert(i as int, c.terms),
            final(self).at.spec_len() == old(self).at.spec_len() + 1,
            final(self).input_assignment == old(self).input_assignment,
            final(self).aux_assignment == old(self).aux_assignment,
            old(self).namespaces@.len() == 0 ==> final(self).namespaces@ == old(self).namespaces@,
            forall|snap: ProvingAssignment| old(self).scoped_since(snap) ==> final(self).scoped_since(snap),
    {
        let idx = self.at.insert(a.terms);
        let idx_b = self.bt.insert(b.terms);
        let idx_c = self.ct.insert(c.terms);
        proof {
            assert(idx_b == idx && idx_c == idx);
        }
        self.record_constraint(idx);
        proof {
            assert(self.at.live_map() == old(self).at.live_map().insert(idx as int, a.terms));
            assert(self.bt.live_map() == old(self).bt.live_map().insert(idx as int, b.terms));
            assert(self.ct.live_map() == old(self).ct.live_map().insert(idx as int, c.terms));
            assert forall|snap: ProvingAssignment| old(self).scoped_since(snap) implies
                self.scoped_since(snap) by {
                lemma_frame_grow::<Vec<(Fr, Index)>>(
                    old(self).namespaces@.last().constraint_indices@,
                    idx,
                    a.terms,
                    old(self).at.live_map(),
                );
                lemma_frame_grow::<Vec<(Fr, Index)>>(
                    old(self).namespaces@.last().constraint_indices@,
                    idx,
                    b.terms,
                    old(self).bt.live_map(),
                );
                lemma_frame_grow::<Vec<(Fr, Index)>>(
                    old(self).namespaces@.last().constraint_indices@,
                    idx,
                    c.terms,
                    old(self).ct.live_map(),
                );
                assert(self.namespaces@.last().constraint_indices@ =~= old(
                    self,
                ).namespaces@.last().constraint_indices@.push(idx));
                assert(self.namespaces@.last().input_indices@ == old(
                    self,
                ).namespaces@.last().input_indices@);
                assert(self.namespaces@.last().aux_indices@ == old(
                    self,
                ).namespaces@.last().aux_indices@);
                assert(self.namespaces@.subrange(0, snap.namespaces@.len() as int) =~= old(
                    self,
                ).namespaces@.subrange(0, snap.namespaces@.len() as int));
            }
        }
    }

    /// Opens a scope: subsequent allocations are recorded until the
    /// matching `pop_namespace`, which will retract them. Establishes
    /// the rollback relation with the current state as the snapshot.
    pub fn push_namespace(&mut self)
        requires
            old(self).wf(),
        ensures
            final(self).wf(),
            final(self).namespaces@.len() == old(self).namespaces@.len() + 1,
            final(self).namespaces@.drop_last() == old(self).namespaces@,
            final(self).namespaces@.last().constraint_indices@ == Seq::<usize>::empty(),
            final(self).namespaces@.last().input_indices@ == Seq::<usize>::empty(),
            final(self).namespaces@.last().aux_indices@ == Seq::<usize>::empty(),
            final(self).at == old(self).at,
            final(self).bt == old(self).bt,
            final(self).ct == old(self).ct,
            final(self).input_assignment == old(self).input_assignment,
            final(self).aux_assignment == old(self).aux_assignment,
            final(self).scoped_since(*old(self)),
    {
        self.namespaces.push(Namespace::new());
        proof {
            assert(self.namespaces@.drop_last() =~= old(self).namespaces@);
            assert(self.namespaces@.subrange(0, old(self).namespaces@.len() as int) =~= old(
                self,
            ).namespaces@);
            lemma_frame_empty(self.at.live_map());
            lemma_frame_empty(self.bt.live_map());
            lemma_frame_empty(self.ct.live_map());
            lemma_frame_empty(self.input_assignment.live_map());
            lemma_frame_empty(self.aux_assignment.live_map());
        }
    }

    /// Closes the innermost scope, removing exactly the constraint rows
    /// and variables allocated inside it. When the rollback relation
    /// holds against a snapshot taken at the matching push, the
    /// observable state — the live maps of all five stores, their live
    /// counts, and the scope stack — returns to that snapshot exactly;
    /// popping with no open scope changes nothing.
    pub fn pop_namespace(&mut self)
        requires
            old(self).wf(),
        ensures
            final(self).wf(),
            old(self).namespaces@.len() == 0 ==> *final(self) == *old(self),
            old(self).namespaces@.len() > 0 ==> final(self).namespaces@ == old(
                self,
            ).namespaces@.drop_last(),
            forall|snap: ProvingAssignment| old(self).scoped_since(snap) ==> {
                &&& final(self).at.live_map() == snap.at.live_map()
                &&& final(self).bt.live_map() == snap.bt.live_map()
                &&& final(self).ct.live_map() == snap.ct.live_map()
                &&& final(self).input_assignment.live_map() == snap.input_assignment.live_map()
                &&& final(self).aux_assignment.live_map() == snap.aux_assignment.live_map()
                &&& final(self).at.spec_len() == snap.at.spec_len()
                &&& final(self).bt.spec_len() == snap.bt.spec_len()
                &&& final(self).ct.spec_len() == snap.ct.spec_len()
                &&& final(self).input_assignment.spec_len() == snap.input_assignment.spec_len()
                &&& final(self).aux_assignment.spec_len() == snap.aux_assignment.spec_len()
                &&& final(self).namespaces@ == snap.namespaces@
            },
    {
        if self.namespaces.len() == 0 {
            return ;
        }
        let ghost entry = *self;
        let ns = match self.namespaces.pop() {
            Some(ns) => ns,
            None => { return ; },
        };
        let ghost frame_c = ns.constraint_indices@;
        let ghost frame_i = ns.input_indices@;
        let ghost frame_a = ns.aux_indices@;
        let mut k: usize = 0;
        let cn = ns.constraint_indices.len();
        while k < cn
            invariant
                k <= cn,
                cn == frame_c.len(),
                ns.constraint_indices@ == frame_c,
                self.at.wf(),
                self.bt.wf(),
                self.ct.wf(),
                self.bt.values@.len() == self.at.values@.len(),
                self.ct.values@.len() == self.at.values@.len(),
                self.bt.holes@ == self.at.holes@,
                self.ct.holes@ == self.at.holes@,
                self.at.live_map() == entry.at.live_map().remove_keys(
                    frame_set(frame_c.take(k as int)),
                ),
                self.bt.live_map() == entry.bt.live_map().remove_keys(
                    frame_set(frame_c.take(k as int)),
                ),
                self.ct.live_map() == entry.ct.live_map().remove_keys(
                    frame_set(frame_c.take(k as int)),
                ),
                frame_distinct_live(frame_c, entry.at.live_map()) ==> self.at.spec_len()
                    == entry.at.spec_len() - k,
                frame_distinct_live(frame_c, entry.bt.live_map()) ==> self.bt.spec_len()
                    == entry.bt.spec_len() - k,
                frame_distinct_live(frame_c, entry.ct.live_map()) ==> self.ct.spec_len()
                    == entry.ct.spec_len() - k,
                self.input_assignment == entry.input_assignment,
                self.aux_assignment == entry.aux_assignment,
                self.namespaces@ == entry.namespaces@.drop_last(),
                forall|i: int| self.at.live_map().dom().contains(i) ==> row_coeffs_valid(
                    (#[trigger] self.at.live_map()[i])@,
                ),
                forall|i: int| self.bt.live_map().dom().contains(i) ==> row_coeffs_valid(
                    (#[trigger] self.bt.live_map()[i])@,
                ),
                forall|i: int| self.ct.live_map().dom().contains(i) ==> row_coeffs_valid(
                    (#[trigger] self.ct.live_map()[i])@,
                ),
            decreases cn - k,
        {
            let idx = ns.constraint_indices[k];
            proof {
                lemma_remove_keys_step(entry.at.live_map(), frame_c, k as int);
                lemma_remove_keys_step(entry.bt.live_map(), frame_c, k as int);
                lemma_remove_keys_step(entry.ct.live_map(), frame_c, k as int);
            }
            self.at.remove(idx);
            self.bt.remove(idx);
            self.ct.remove(idx);
            k = k + 1;
        }
        proof {
            assert(frame_c.take(cn as int) =~= frame_c);
        }
        let mut k2: usize = 0;
        let an = ns.aux_indices.len();
        while k2 < an
            invariant
                k2 <= an,
                an == frame_a.len(),
                ns.aux_indices@ == frame_a,
                cn == frame_c.len(),
                ns.constraint_indices@ == frame_c,
                self.aux_assignment.wf(),
                self.aux_assignment.live_map() == entry.aux_assignment.live_map().remove_keys(
                    frame_set(frame_a.take(k2 as int)),
                ),
                frame_distinct_live(frame_a, entry.aux_assignment.live_map())
                    ==> self.aux_assignment.spec_len() == entry.aux_assignment.spec_len() - k2,
                forall|i: int| self.aux_assignment.live_map().dom().contains(i)
                    ==> (#[trigger] self.aux_assignment.live_map()[i]).is_valid(),
                self.at.wf(),
                self.bt.wf(),
                self.ct.wf(),
                self.bt.values@.len() == self.at.values@.len(),
                self.ct.values@.len() == self.at.values@.len(),
                self.bt.holes@ == self.at.holes@,
                self.ct.holes@ == self.at.holes@,
                self.at.live_map() == entry.at.live_map().remove_keys(frame_set(frame_c)),
                self.bt.live_map() == entry.bt.live_map().remove_keys(frame_set(frame_c)),
                self.ct.live_map() == entry.ct.live_map().remove_keys(frame_set(frame_c)),
                frame_distinct_live(frame_c, entry.at.live_map()) ==> self.at.spec_len()
                    == entry.at.spec_len() - cn,
                frame_distinct_live(frame_c, entry.bt.live_map()) ==> self.bt.spec_len()
                    == entry.bt.spec_len() - cn,
                frame_distinct_live(frame_c, entry.ct.live_map()) ==> self.ct.spec_len()
                    == entry.ct.spec_len() - cn,
                self.input_assignment == entry.input_assignment,
                self.namespaces@ == entry.namespaces@.drop_last(),
                forall|i: int| self.at.live_map().dom().contains(i) ==> row_coeffs_valid(
                    (#[trigger] self.at.live_map()[i])@,
                ),
                forall|i: int| self.bt.live_map().dom().contains(i) ==> row_coeffs_valid(
                    (#[trigger] self.bt.live_map()[i])@,
                ),
                forall|i: int| self.ct.live_map().dom().contains(i) ==> row_coeffs_valid(
                    (#[trigger] self.ct.live_map()[i])@,
                ),
            decreases an - k2,
        {
            let idx = ns.aux_indices[k2];
            proof {
                lemma_remove_keys_step(entry.aux_assignment.live_map(), frame_a, k2 as int);
            }
            self.aux_assignment.remove(idx);
            k2 = k2 + 1;
        }
        proof {
            assert(frame_a.take(an as int) =~= frame_a);
        }
        let mut k3: usize = 0;
        let inn = ns.input_indices.len();
        while k3 < inn
            invariant
                k3 <= inn,
                inn == frame_i.len(),
                ns.input_indices@ == frame_i,
                cn == frame_c.len(),
                ns.constraint_indices@ == frame_c,
                an == frame_a.len(),
                ns.aux_indices@ == frame_a,
                self.input_assignment.wf(),
                self.input_assignment.live_map() == entry.input_assignment.live_map().remove_keys(
                    frame_set(frame_i.take(k3 as int)),
                ),
                frame_distinct_live(frame_i, entry.input_assignment.live_map())
                    ==> self.input_assignment.spec_len() == entry.input_assignment.spec_len() - k3,
                forall|i: int| self.input_assignment.live_map().dom().contains(i)
                    ==> (#[trigger] self.input_assignment.live_map()[i]).is_valid(),
                self.aux_assignment.wf(),
                self.aux_assignment.live_map() == entry.aux_assignment.live_map().remove_keys(
                    frame_set(frame_a),
                ),
                frame_distinct_live(frame_a, entry.aux_assignment.live_map())
                    ==> self.aux_assignment.spec_len() == entry.aux_assignment.spec_len() - an,
                forall|i: int| self.aux_assignment.live_map().dom().contains(i)
                    ==> (#[trigger] self.aux_assignment.live_map()[i]).is_valid(),
                self.at.wf(),
                self.bt.wf(),
                self.ct.wf(),
                self.bt.values@.len() == self.at.values@.len(),
                self.ct.values@.len() == self.at.values@.len(),
                self.bt.holes@ == self.at.holes@,
                self.ct.holes@ == self.at.holes@,
                self.at.live_map() == entry.at.live_map().remove_keys(frame_set(frame_c)),
                self.bt.live_map() == entry.bt.live_map().remove_keys(frame_set(frame_c)),
                self.ct.live_map() == entry.ct.live_map().remove_keys(frame_set(frame_c)),
                frame_distinct_live(frame_c, entry.at.live_map()) ==> self.at.spec_len()
                    == entry.at.spec_len() - cn,
                frame_distinct_live(frame_c, entry.bt.live_map()) ==> self.bt.spec_len()
                    == entry.bt.spec_len() - cn,
                frame_distinct_live(frame_c, entry.ct.live_map()) ==> self.ct.spec_len()
                    == entry.ct.spec_len() - cn,
                self.namespaces@ == entry.namespaces@.drop_last(),
                forall|i: int| self.at.live_map().dom().contains(i) ==> row_coeffs_valid(
                    (#[trigger] self.at.live_map()[i])@,
                ),
                forall|i: int| self.bt.live_map().dom().contains(i) ==> row_coeffs_valid(
                    (#[trigger] self.bt.live_map()[i])@,
                ),
                forall|i: int| self.ct.live_map().dom().contains(i) ==> row_coeffs_valid(
                    (#[trigger] self.ct.live_map()[i])@,
                ),
            decreases inn - k3,
        {
            let idx = ns.input_indices[k3];
            proof {
                lemma_remove_keys_step(entry.input_assignment.live_map(), frame_i, k3 as int);
            }
            self.input_assignment.remove(idx);
            k3 = k3 + 1;
        }
        proof {
            assert(frame_c.take(cn as int) =~= frame_c);
            assert(frame_a.take(an as int) =~= frame_a);
            assert(frame_i.take(inn as int) =~= frame_i);
            assert forall|snap: ProvingAssignment| entry.scoped_since(snap) implies {
                &&& self.at.live_map() == snap.at.live_map()
                &&& self.bt.live_map() == snap.bt.live_map()
                &&& self.ct.live_map() == snap.ct.live_map()
                &&& self.input_assignment.live_map() == snap.input_assignment.live_map()
                &&& self.aux_assignment.live_map() == snap.aux_assignment.live_map()
                &&& self.at.spec_len() == snap.at.spec_len()
                &&& self.bt.spec_len() == snap.bt.spec_len()
                &&& self.ct.spec_len() == snap.ct.spec_len()
                &&& self.input_assignment.spec_len() == snap.input_assignment.spec_len()
                &&& self.aux_assignment.spec_len() == snap.aux_assignment.spec_len()
                &&& self.namespaces@ == snap.namespaces@
            } by {
                assert(entry.namespaces@.last() == ns);
                assert(self.namespaces@ =~= snap.namespaces@);
            }
        }
    }

    /// The number of live (non-removed) constraint rows.
    pub fn num_constraints(&self) -> (r: usize)
        requires
            self.wf(),
        ensures
            r == self.at.spec_len(),
    {
        self.at.len()
    }

    /// The recorder is its own root constraint system.
    pub fn get_root(&mut self) -> (r: &mut ProvingAssignment)
        ensures
            *r == *old(self),
            *final(self) == *final(r),
    {
        self
    }
}

/// A circuit: a value that describes itself to a constraint system by
/// allocating variables and enforcing constraints. Written by the
/// library's users; synthesis may fail (an inconsistent or missing
/// witness), in which case no constraints are owed, but the recorder must
/// be left well formed.
pub trait ConstraintSynthesizer {
    /// Drives the recorder: allocates variables and enforces constraints,
    /// or fails with a `SynthesisError`.
    fn generate_constraints(&self, cs: &mut ProvingAssignment) -> (r: Result<(), SynthesisError>)
        requires
            old(cs).wf(),
        ensures
            final(cs).wf(),
    ;
}

/// Removing the recorded indices one at a time agrees with removing them
/// as a set: one more step extends the removed prefix by one key.
proof fn lemma_remove_keys_step<T>(m: Map<int, T>, frame: Seq<usize>, k: int)
    requires
        0 <= k < frame.len(),
    ensures
        m.remove_keys(frame_set(frame.take(k))).remove(frame[k] as int) == m.remove_keys(
            frame_set(frame.take(k + 1)),
        ),
        frame_distinct_live(frame, m) ==> m.remove_keys(frame_set(frame.take(k))).dom().contains(
            frame[k] as int,
        ),
{
    assert(m.remove_keys(frame_set(frame.take(k))).remove(frame[k] as int) =~= m.remove_keys(
        frame_set(frame.take(k + 1)),
    )) by {
        assert forall|i: int| frame_set(frame.take(k + 1)).contains(i) implies frame_set(
            frame.take(k),
        ).contains(i) || i == frame[k] as int by {
            let j = choose|j: int| 0 <= j < frame.take(k + 1).len() && (#[trigger] frame.take(
                k + 1,
            )[j]) as int == i;
            if j < k {
                assert(frame.take(k)[j] as int == i);
            }
        }
        assert forall|i: int| frame_set(frame.take(k)).contains(i) implies frame_set(
            frame.take(k + 1),
        ).contains(i) by {
            let j = choose|j: int| 0 <= j < frame.take(k).len() && (#[trigger] frame.take(
                k,
            )[j]) as int == i;
            assert(frame.take(k + 1)[j] as int == i);
        }
        assert(frame_set(frame.take(k + 1)).contains(frame[k] as int)) by {
            assert(frame.take(k + 1)[k] as int == frame[k] as int);
        }
    }
    if frame_distinct_live(frame, m) {
        assert(m.dom().contains(frame[k] as int));
        assert(!frame_set(frame.take(k)).contains(frame[k] as int)) by {
            if frame_set(frame.take(k)).contains(frame[k] as int) {
                let j = choose|j: int| 0 <= j < frame.take(k).len() && (#[trigger] frame.take(
                    k,
                )[j]) as int == frame[k] as int;
                assert(frame[j] == frame[k]);
            }
        }
    }
}

/// Removing no keys is the identity on a store's live map; what a fresh
/// scope's empty lists guarantee.
proof fn lemma_frame_empty<T>(m: Map<int, T>)
    ensures
        frame_tracks(Seq::<usize>::empty(), m, m),
{
    assert(m.remove_keys(frame_set(Seq::<usize>::empty())) =~= m);
}

/// Recording a fresh index keeps a frame list faithful: after inserting
/// a value at an index that was not live, the extended list still tracks
/// the same snapshot.
proof fn lemma_frame_grow<T>(frame: Seq<usize>, idx: usize, value: T, cur: Map<int, T>)
    requires
        !cur.dom().contains(idx as int),
    ensures
        ({
            let cur2 = cur.insert(idx as int, value);
            forall|snap: Map<int, T>| frame_tracks(frame, snap, cur) ==> frame_tracks(
                frame.push(idx),
                snap,
                cur2,
            )
        }),
{
    let cur2 = cur.insert(idx as int, value);
    assert forall|snap: Map<int, T>| frame_tracks(frame, snap, cur) implies frame_tracks(
        frame.push(idx),
        snap,
        cur2,
    ) by {
        let f2 = frame.push(idx);
        assert forall|k1: int, k2: int| 0 <= k1 < k2 < f2.len() implies f2[k1] != f2[k2] by {
            if k2 == f2.len() - 1 {
                assert(cur.dom().contains(frame[k1] as int));
            }
        }
        assert forall|k: int| 0 <= k < f2.len() implies cur2.dom().contains(
            (#[trigger] f2[k]) as int,
        ) && !snap.dom().contains(f2[k] as int) by {
            if k < frame.len() {
                assert(cur.dom().contains(frame[k] as int));
                assert(!snap.dom().contains(frame[k] as int));
            } else {
                assert(f2[k] == idx);
                assert(!snap.dom().contains(idx as int)) by {
                    if snap.dom().contains(idx as int) {
                        assert(cur.remove_keys(frame_set(frame)).dom().contains(idx as int));
                    }
                }
            }
        }
        assert(cur2.remove_keys(frame_set(f2)) =~= snap) by {
            assert forall|i: int| frame_set(f2).contains(i) implies frame_set(frame).contains(i)
                || i == idx as int by {
                let j = choose|j: int| 0 <= j < f2.len() && (#[trigger] f2[j]) as int == i;
                if j < frame.len() {
                    assert(frame[j] as int == i);
                }
            }
            assert forall|i: int| frame_set(frame).contains(i) implies frame_set(f2).contains(
                i,
            ) by {
                let j = choose|j: int| 0 <= j < frame.len() && (#[trigger] frame[j]) as int == i;
                assert(f2[j] as int == i);
            }
            assert(frame_set(f2).contains(idx as int)) by {
                assert(f2[f2.len() - 1] as int == idx as int);
            }
        }
    }
}

} // verus!
