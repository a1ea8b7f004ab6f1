use permutation_gadget::argument::{evaluate, product};
use permutation_gadget::circuit::{
    CircuitError, PermutationChip, PermutationCircuit, PermutationCircuitInputs,
};
use permutation_gadget::field::{fe_eq, fe_from_u64, fe_is_canonical, fe_mul, fe_sub};

const DEGREE: u32 = 10;

/// The order of the field, little-endian.
const ORDER: [u8; 32] = [
    1, 0, 0, 240, 147, 245, 225, 67, 145, 112, 185, 121, 72, 232, 51, 40, 93, 88, 129, 129, 182,
    69, 80, 184, 41, 160, 49, 225, 114, 78, 100, 48,
];

/// The little-endian bytes of the small integer `x`.
fn bytes(x: u128) -> [u8; 32] {
    let mut r = [0u8; 32];
    r[..16].copy_from_slice(&x.to_le_bytes());
    r
}

/// The little-endian bytes of the order minus `k`.
fn order_minus(k: u64) -> [u8; 32] {
    let mut r = ORDER;
    let mut borrow = k as u128;
    for byte in r.iter_mut() {
        let cur = *byte as u128;
        let need = borrow % 256;
        borrow /= 256;
        if cur >= need {
            *byte = (cur - need) as u8;
        } else {
            *byte = (cur + 256 - need) as u8;
            borrow += 1;
        }
    }
    r
}

fn chip() -> PermutationChip {
    PermutationChip::new(1usize << DEGREE)
}

fn circuit(arr1: Vec<u64>, arr2: Vec<u64>, len: usize) -> PermutationCircuit {
    let inputs = PermutationCircuitInputs::new(arr1, arr2, len).unwrap();
    PermutationCircuit { inputs }
}

fn cells(values: Vec<u64>) -> Vec<[u8; 32]> {
    chip().commit(&values).unwrap()
}

const CHALLENGES: [u128; 6] = [0, 1, 5, 12345, 0xdead_beef_cafe, u128::MAX];

#[test]
fn chal_test_challenge() {
    let arr1: Vec<u64> = vec![3, 7, 4, 2];
    let arr2: Vec<u64> = vec![7, 4, 3, 2];
    let len: usize = 4;
    let circuit = circuit(arr1, arr2, len);
    for c in CHALLENGES {
        assert_eq!(circuit.synthesize(&chip(), &bytes(c)), Ok(()));
    }
}

#[test]
fn mod_test_challenge() {
    let k = DEGREE;
    let arr1: Vec<u64> = vec![3, 7, 4, 2];
    let arr2: Vec<u64> = vec![7, 4, 3, 2];
    let len: usize = 4;
    let inputs = PermutationCircuitInputs::new(arr1, arr2, len).unwrap();
    let circuit = PermutationCircuit { inputs };
    let chip = PermutationChip::new(1usize << k);
    for c in CHALLENGES {
        assert_eq!(circuit.synthesize(&chip, &bytes(c)), Ok(()));
    }
}

#[test]
fn tampered_permutation_fails() {
    let circuit = circuit(vec![3, 7, 4, 2], vec![7, 4, 3, 3], 4);
    for c in CHALLENGES {
        assert_eq!(circuit.synthesize(&chip(), &bytes(c)), Err(CircuitError::ConstraintUnsatisfied));
    }
    // at a challenge that is a root of both sides the claim holds
    assert_eq!(circuit.synthesize(&chip(), &bytes(3)), Ok(()));
}

#[test]
fn single_tamper_fails() {
    let good = circuit(vec![10, 20, 30], vec![30, 10, 20], 3);
    let bad = circuit(vec![10, 20, 30], vec![30, 11, 20], 3);
    for c in CHALLENGES {
        assert_eq!(good.synthesize(&chip(), &bytes(c)), Ok(()));
        assert_eq!(bad.synthesize(&chip(), &bytes(c)), Err(CircuitError::ConstraintUnsatisfied));
    }
}

#[test]
fn multiplicities_are_distinguished() {
    let circuit = circuit(vec![2, 2, 3], vec![2, 3, 3], 3);
    for c in CHALLENGES {
        assert_eq!(circuit.synthesize(&chip(), &bytes(c)), Err(CircuitError::ConstraintUnsatisfied));
    }
}

#[test]
fn empty_sequences_succeed() {
    let circuit = circuit(vec![], vec![], 0);
    for c in CHALLENGES {
        assert_eq!(circuit.synthesize(&chip(), &bytes(c)), Ok(()));
    }
    assert_eq!(product(&vec![], &bytes(42)), bytes(1));
}

#[test]
fn length_mismatch_is_refused() {
    assert!(matches!(
        PermutationCircuitInputs::new(vec![1, 2, 3], vec![1, 2], 3),
        Err(CircuitError::Configuration)
    ));
    assert!(matches!(
        PermutationCircuitInputs::new(vec![1, 2], vec![2, 1], 3),
        Err(CircuitError::Configuration)
    ));
    let inputs = PermutationCircuitInputs::new(vec![1, 2], vec![2, 1], 2).unwrap();
    assert_eq!(inputs.len(), 2);
}

#[test]
fn over_capacity_is_refused() {
    let circuit = circuit(vec![1, 2, 3], vec![3, 2, 1], 3);
    assert_eq!(circuit.synthesize(&PermutationChip::new(2), &bytes(9)), Err(CircuitError::Configuration));
    assert_eq!(circuit.synthesize(&PermutationChip::new(3), &bytes(9)), Ok(()));
    assert!(matches!(PermutationChip::new(2).commit(&vec![1, 2, 3]), Err(CircuitError::Configuration)));
}

#[test]
fn commit_keeps_values_in_order() {
    let committed = chip().commit(&vec![5, 0, u64::MAX]).unwrap();
    assert_eq!(committed, vec![bytes(5), bytes(0), bytes(u64::MAX as u128)]);
}

#[test]
fn swapping_entries_keeps_the_outcome() {
    let base = circuit(vec![3, 7, 4, 2], vec![7, 4, 3, 3], 4);
    let swapped = circuit(vec![4, 7, 3, 2], vec![7, 4, 3, 3], 4);
    let good = circuit(vec![3, 7, 4, 2], vec![7, 4, 3, 2], 4);
    let good_swapped = circuit(vec![3, 7, 4, 2], vec![2, 4, 3, 7], 4);
    for c in CHALLENGES {
        assert_eq!(base.synthesize(&chip(), &bytes(c)), swapped.synthesize(&chip(), &bytes(c)));
        assert_eq!(good.synthesize(&chip(), &bytes(c)), good_swapped.synthesize(&chip(), &bytes(c)));
    }
}

#[test]
fn phases_run_one_by_one() {
    let chip = chip();
    let inputs = PermutationCircuitInputs::new(vec![5, 6, 7], vec![7, 5, 6], 3).unwrap();
    let witness = chip.phase0(&inputs).unwrap();
    let sealed = witness.finalize();
    let challenged = sealed.sample(&bytes(10)).unwrap();
    assert_eq!(chip.phase1(challenged), Ok(()));

    let inputs = PermutationCircuitInputs::new(vec![5, 6, 7], vec![7, 5, 5], 3).unwrap();
    let challenged = chip.phase0(&inputs).unwrap().finalize().sample(&bytes(10)).unwrap();
    assert_eq!(chip.phase1(challenged), Err(CircuitError::ConstraintUnsatisfied));
}

#[test]
fn challenge_must_be_a_field_element() {
    let genuine = circuit(vec![3, 7, 4, 2], vec![7, 4, 3, 2], 4);
    assert_eq!(genuine.synthesize(&chip(), &ORDER), Err(CircuitError::Assignment));
    assert_eq!(genuine.synthesize(&chip(), &[0xff; 32]), Err(CircuitError::Assignment));
    assert_eq!(genuine.synthesize(&chip(), &order_minus(1)), Ok(()));
    let tampered = circuit(vec![3, 7, 4, 2], vec![7, 4, 3, 3], 4);
    assert_eq!(tampered.synthesize(&chip(), &order_minus(1)), Err(CircuitError::ConstraintUnsatisfied));
    let inputs = PermutationCircuitInputs::new(vec![1], vec![1], 1).unwrap();
    let sealed = chip().phase0(&inputs).unwrap().finalize();
    assert!(matches!(sealed.sample(&ORDER), Err(CircuitError::Assignment)));
    assert!(fe_is_canonical(&order_minus(1)));
    assert!(!fe_is_canonical(&ORDER));
}

#[test]
fn without_witnesses_is_empty() {
    let circuit = circuit(vec![1, 2], vec![2, 1], 2);
    assert_eq!(circuit.without_witnesses().inputs.len(), 0);
    assert_eq!(PermutationCircuit::default().inputs.len(), 0);
    assert_eq!(PermutationCircuitInputs::default().len(), 0);
}

#[test]
fn products_take_the_field_values() {
    // (10 - 3) * (10 - 7)
    assert_eq!(product(&cells(vec![3, 7]), &bytes(10)), bytes(21));
    // 5 - 12 wraps around the order
    assert_eq!(product(&cells(vec![12]), &bytes(5)), order_minus(7));
    // (0 - 2)^2 * (0 - 3) against (0 - 2) * (0 - 3)^2
    assert_eq!(product(&cells(vec![2, 2, 3]), &bytes(0)), order_minus(12));
    assert_eq!(product(&cells(vec![2, 3, 3]), &bytes(0)), order_minus(18));
    assert!(evaluate(&cells(vec![1, 2, 3]), &cells(vec![3, 1, 2]), &bytes(77)));
    assert!(!evaluate(&cells(vec![1, 2, 3]), &cells(vec![3, 1, 1]), &bytes(77)));
}

#[test]
fn field_operations() {
    assert_eq!(fe_from_u64(17), bytes(17));
    assert_eq!(fe_from_u64(u64::MAX), bytes(u64::MAX as u128));
    assert_eq!(fe_sub(&bytes(0), &bytes(1)), order_minus(1));
    assert_eq!(fe_sub(&bytes(9), &bytes(4)), bytes(5));
    assert_eq!(fe_mul(&order_minus(1), &order_minus(1)), bytes(1));
    assert_eq!(fe_mul(&bytes(6), &bytes(7)), bytes(42));
    let m = u64::MAX as u128;
    assert_eq!(fe_mul(&bytes(m), &bytes(m)), bytes(m * m));
    assert!(fe_eq(&bytes(3), &bytes(3)));
    assert!(!fe_eq(&bytes(3), &bytes(4)));
}
