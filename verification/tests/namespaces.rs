use groth16::assignment::ProvingAssignment;
use groth16::field::Fr;
use groth16::r1cs::LinearCombination;

fn snapshot(pa: &ProvingAssignment) -> (usize, usize, usize, Vec<Option<Vec<u64>>>) {
    let rows: Vec<Option<Vec<u64>>> = pa
        .at
        .values
        .iter()
        .map(|slot| slot.as_ref().map(|row| row.iter().map(|(c, _)| c.value).collect()))
        .collect();
    (pa.num_constraints(), pa.input_assignment.len(), pa.aux_assignment.len(), rows)
}

fn enforce_simple(pa: &mut ProvingAssignment, coeff: u64) {
    let v = pa.alloc_aux(Fr::from_u64(coeff));
    let mut lc_a = LinearCombination::zero();
    lc_a.add_term(Fr::from_u64(coeff), v);
    let lc_b = LinearCombination::zero();
    let lc_c = LinearCombination::zero();
    pa.enforce(lc_a, lc_b, lc_c);
}

#[test]
fn pop_restores_state_before_push() {
    let mut pa = ProvingAssignment::new();
    let _ = pa.alloc_input(Fr::one());
    enforce_simple(&mut pa, 41);
    enforce_simple(&mut pa, 42);
    let before = snapshot(&pa);

    pa.push_namespace();
    // k constraints and m variables inside the scope.
    enforce_simple(&mut pa, 101);
    enforce_simple(&mut pa, 102);
    enforce_simple(&mut pa, 103);
    let _ = pa.alloc_aux(Fr::from_u64(77));
    let _ = pa.alloc_input(Fr::from_u64(88));
    assert_eq!(pa.num_constraints(), 5);
    pa.pop_namespace();

    let after = snapshot(&pa);
    assert_eq!(before.0, after.0);
    assert_eq!(before.1, after.1);
    assert_eq!(before.2, after.2);
    // Every slot that existed before the push holds the same row; slots
    // grown inside the scope are holes now.
    for (i, slot) in after.3.iter().enumerate() {
        if i < before.3.len() {
            assert_eq!(&before.3[i], slot);
        } else {
            assert!(slot.is_none());
        }
    }
    assert!(pa.at.contains_index(0));
    assert!(!pa.at.contains_index(before.0 + 1));
}

#[test]
fn nested_scopes_roll_back_in_turn() {
    let mut pa = ProvingAssignment::new();
    let _ = pa.alloc_input(Fr::one());
    enforce_simple(&mut pa, 1);
    let outer = snapshot(&pa);

    pa.push_namespace();
    enforce_simple(&mut pa, 2);
    let inner = snapshot(&pa);

    pa.push_namespace();
    enforce_simple(&mut pa, 3);
    enforce_simple(&mut pa, 4);
    pa.pop_namespace();
    assert_eq!(snapshot(&pa).0, inner.0);

    pa.pop_namespace();
    let back = snapshot(&pa);
    assert_eq!(outer.0, back.0);
    assert_eq!(outer.1, back.1);
    assert_eq!(outer.2, back.2);
}

#[test]
fn freed_slots_are_reused_by_later_insertions() {
    let mut pa = ProvingAssignment::new();
    let _ = pa.alloc_input(Fr::one());
    pa.push_namespace();
    enforce_simple(&mut pa, 9);
    pa.pop_namespace();
    let capacity_after_pop = pa.at.capacity();
    enforce_simple(&mut pa, 10);
    // The hole left by the rollback is filled instead of growing the store.
    assert_eq!(pa.at.capacity(), capacity_after_pop);
    assert_eq!(pa.num_constraints(), 1);
}

#[test]
fn root_is_the_recorder_itself() {
    let mut pa = ProvingAssignment::new();
    let root = pa.get_root();
    let _ = root.alloc_input(Fr::one());
    assert_eq!(pa.input_assignment.len(), 1);
}

#[test]
fn pop_without_push_changes_nothing() {
    let mut pa = ProvingAssignment::new();
    let _ = pa.alloc_input(Fr::one());
    enforce_simple(&mut pa, 5);
    let before = snapshot(&pa);
    pa.pop_namespace();
    let after = snapshot(&pa);
    assert_eq!(before.0, after.0);
    assert_eq!(before.1, after.1);
    assert_eq!(before.2, after.2);
    assert_eq!(before.3, after.3);
}
