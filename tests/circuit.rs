use hammster::circuit::{
    empty_circuit, Column, ColumnKind, ConstraintSystem, Error, HammsterChip, HammsterCircuit,
    Region, Selector,
};
use hammster::field::Value;
use hammster::prover::mock_prove;

fn bits(v: [i64; 8]) -> Vec<Value> {
    v.iter().map(|&x| Value::known(x)).collect()
}

fn circuit(a: [i64; 8], b: [i64; 8]) -> HammsterCircuit {
    HammsterCircuit { input_a: bits(a), input_b: bits(b) }
}

#[test]
fn test_circuit() {
    // Eight ones against eight zeros differ in all eight places, so a claimed
    // distance of seven must not satisfy the circuit.
    let c = circuit([1, 1, 1, 1, 1, 1, 1, 1], [0, 0, 0, 0, 0, 0, 0, 0]);
    assert_eq!(mock_prove(&c, &vec![7]), Err(Error::ConstraintUnsatisfied));
}

#[test]
fn all_ones_against_zeros_prove_distance_eight() {
    let c = circuit([1, 1, 1, 1, 1, 1, 1, 1], [0, 0, 0, 0, 0, 0, 0, 0]);
    assert_eq!(mock_prove(&c, &vec![8]), Ok(()));
}

#[test]
fn equal_alternating_vectors_prove_distance_zero() {
    let c = circuit([1, 0, 1, 0, 1, 0, 1, 0], [1, 0, 1, 0, 1, 0, 1, 0]);
    assert_eq!(mock_prove(&c, &vec![0]), Ok(()));
}

#[test]
fn wrong_claim_is_rejected() {
    let c = circuit([1, 1, 1, 1, 1, 1, 1, 1], [0, 0, 0, 0, 0, 0, 0, 0]);
    assert_eq!(mock_prove(&c, &vec![1]), Err(Error::ConstraintUnsatisfied));
}

#[test]
fn proves_exactly_the_hamming_distance() {
    for x in 0u32..256 {
        for y in [0u32, 1, 0x55, 0xaa, 0x0f, 0xf0, 0x81, 0xff, 0x3c, 0x12] {
            let a: Vec<i64> = (0..8).map(|i| ((x >> i) & 1) as i64).collect();
            let b: Vec<i64> = (0..8).map(|i| ((y >> i) & 1) as i64).collect();
            let d = (x ^ y).count_ones() as u64;
            let c = HammsterCircuit {
                input_a: a.iter().map(|&v| Value::known(v)).collect(),
                input_b: b.iter().map(|&v| Value::known(v)).collect(),
            };
            for claim in 0u64..10 {
                let r = mock_prove(&c, &vec![claim]);
                if claim == d {
                    assert_eq!(r, Ok(()));
                } else {
                    assert_eq!(r, Err(Error::ConstraintUnsatisfied));
                }
            }
        }
    }
}

#[test]
fn changing_the_public_input_breaks_the_proof() {
    let c = circuit([1, 1, 0, 0, 1, 0, 1, 0], [0, 1, 0, 1, 1, 1, 1, 0]);
    assert_eq!(mock_prove(&c, &vec![3]), Ok(()));
    assert_eq!(mock_prove(&c, &vec![4]), Err(Error::ConstraintUnsatisfied));
    assert_eq!(mock_prove(&c, &vec![2]), Err(Error::ConstraintUnsatisfied));
}

#[test]
fn checking_twice_gives_the_same_result() {
    let c = circuit([1, 0, 0, 1, 0, 0, 1, 0], [0, 0, 0, 1, 1, 0, 1, 1]);
    for claim in [3u64, 4] {
        assert_eq!(mock_prove(&c, &vec![claim]), mock_prove(&c, &vec![claim]));
    }
}

#[test]
fn witness_free_circuit_synthesizes_but_does_not_prove() {
    let c = circuit([1, 1, 1, 1, 1, 1, 1, 1], [0, 0, 0, 0, 0, 0, 0, 0]);
    let empty = c.without_witnesses();
    assert_eq!(empty.input_a, vec![Value::Unknown; 8]);
    assert_eq!(empty.input_b, vec![Value::Unknown; 8]);
    let mut meta = ConstraintSystem::new();
    let config = HammsterCircuit::configure(&mut meta);
    let s = empty.synthesize(&config, &meta);
    assert!(s.is_ok());
    let s = s.ok().unwrap();
    assert_eq!(s.region.hamming_distance[0], Value::Unknown);
    assert_eq!(s.region.sum[3], Value::Unknown);
    for d in [0u64, 8] {
        assert_eq!(mock_prove(&empty, &vec![d]), Err(Error::MissingWitness));
        assert_eq!(mock_prove(&empty_circuit(), &vec![d]), Err(Error::MissingWitness));
    }
}

#[test]
fn non_boolean_input_is_rejected() {
    let c = circuit([2, 0, 0, 0, 0, 0, 0, 0], [0, 0, 0, 0, 0, 0, 0, 0]);
    for d in 0u64..5 {
        assert_eq!(mock_prove(&c, &vec![d]), Err(Error::ConstraintUnsatisfied));
    }
}

#[test]
fn public_input_must_be_one_value() {
    let c = circuit([1, 0, 0, 0, 0, 0, 0, 0], [0, 0, 0, 0, 0, 0, 0, 0]);
    assert_eq!(mock_prove(&c, &vec![]), Err(Error::ConstraintUnsatisfied));
    assert_eq!(mock_prove(&c, &vec![1, 1]), Err(Error::ConstraintUnsatisfied));
    assert_eq!(mock_prove(&c, &vec![1]), Ok(()));
}

#[test]
fn inputs_of_wrong_shape_are_assignment_errors() {
    let short = HammsterCircuit { input_a: bits([1; 8])[..7].to_vec(), input_b: bits([0; 8]) };
    assert_eq!(mock_prove(&short, &vec![7]), Err(Error::AssignmentError));
    let huge = HammsterCircuit {
        input_a: vec![Value::known(1 << 40); 8],
        input_b: bits([0; 8]),
    };
    assert_eq!(mock_prove(&huge, &vec![0]), Err(Error::AssignmentError));
}

#[test]
fn configure_declares_fresh_handles_with_equality() {
    let mut meta = ConstraintSystem::new();
    let cfg = HammsterChip::configure(&mut meta);
    assert_eq!(cfg.hamming_distance, Column { kind: ColumnKind::Advice, index: 0 });
    assert_eq!(cfg.sum, Column { kind: ColumnKind::Advice, index: 1 });
    assert_eq!(cfg.input_a, Column { kind: ColumnKind::Advice, index: 2 });
    assert_eq!(cfg.input_b, Column { kind: ColumnKind::Advice, index: 3 });
    assert_eq!(cfg.s_hamming, Selector { index: 3 });
    assert_eq!(cfg.instance, Column { kind: ColumnKind::Instance, index: 0 });
    assert_eq!(meta.num_advice, 4);
    assert_eq!(meta.num_selectors, 4);
    assert_eq!(meta.num_instance, 1);
    assert_eq!(meta.equality, vec![cfg.hamming_distance, cfg.instance]);
    assert!(meta.is_equality_enabled(cfg.instance));
    assert!(!meta.is_equality_enabled(cfg.sum));
}

#[test]
fn assign_fills_xor_and_distance() {
    let mut meta = ConstraintSystem::new();
    let chip = HammsterChip::construct(HammsterChip::configure(&mut meta));
    let a = bits([1, 1, 0, 0, 1, 1, 0, 0]);
    let b = bits([1, 0, 1, 0, 1, 0, 1, 0]);
    let (region, cell) = chip.assign(&a, &b).ok().unwrap();
    assert_eq!(region.sum, bits([0, 1, 1, 0, 0, 1, 1, 0]));
    assert_eq!(region.hamming_distance[0], Value::known(4));
    assert_eq!(region.s_hamming, vec![true, false, false, false, false, false, false, false]);
    assert_eq!(region.s_sum, vec![true; 8]);
    assert_eq!(cell.column, chip.config.hamming_distance);
    assert_eq!(cell.row, 0);
    let binding = chip.expose_public(&meta, cell).ok().unwrap();
    assert_eq!(binding.instance, chip.config.instance);
    assert_eq!(binding.instance_row, 0);
}

#[test]
fn region_rejects_rows_and_columns_outside_it() {
    let mut meta = ConstraintSystem::new();
    let cfg = HammsterChip::configure(&mut meta);
    let mut region = Region::new();
    assert_eq!(region.assign_advice(&cfg, cfg.sum, 8, Value::known(1)), Err(Error::AssignmentError));
    assert_eq!(
        region.assign_advice(&cfg, cfg.instance, 0, Value::known(1)),
        Err(Error::AssignmentError)
    );
    assert_eq!(region.enable_selector(&cfg, Selector { index: 9 }, 0), Err(Error::AssignmentError));
    assert_eq!(region.enable_selector(&cfg, cfg.s1, 8), Err(Error::AssignmentError));
    assert_eq!(region.assign_advice(&cfg, cfg.sum, 7, Value::known(5)), Ok(()));
    assert_eq!(region.sum[7], Value::known(5));
    assert_eq!(region.enable_selector(&cfg, cfg.s2, 7), Ok(()));
    assert!(region.s2[7]);
}

#[test]
fn binding_needs_equality() {
    let mut meta = ConstraintSystem::new();
    let chip = HammsterChip::construct(HammsterChip::configure(&mut meta));
    let bare = ConstraintSystem::new();
    let cell = hammster::circuit::AssignedCell { column: chip.config.hamming_distance, row: 0 };
    assert_eq!(chip.expose_public(&bare, cell).err(), Some(Error::ConfigurationError));
    let sum_cell = hammster::circuit::AssignedCell { column: chip.config.sum, row: 0 };
    assert_eq!(chip.expose_public(&meta, sum_cell).err(), Some(Error::ConfigurationError));
}

#[test]
fn unknown_propagates_through_arithmetic() {
    let k = Value::known(3);
    let u = Value::unknown();
    assert_eq!(k.plus(Value::known(4)), Value::known(7));
    assert_eq!(k.minus(Value::known(4)), Value::known(-1));
    assert_eq!(k.times(Value::known(4)), Value::known(12));
    assert_eq!(k.plus(u), Value::Unknown);
    assert_eq!(u.times(k), Value::Unknown);
    assert_eq!(u.minus(u), Value::Unknown);
    assert!(k.is_known());
    assert!(!u.is_known());
}

#[test]
fn xor_form_on_bits_and_digits() {
    assert_eq!(Value::known(0).xor(Value::known(0)), Value::known(0));
    assert_eq!(Value::known(0).xor(Value::known(1)), Value::known(1));
    assert_eq!(Value::known(1).xor(Value::known(0)), Value::known(1));
    assert_eq!(Value::known(1).xor(Value::known(1)), Value::known(0));
    assert_eq!(Value::known(2).xor(Value::known(3)), Value::known(-7));
    assert_eq!(Value::known(1).xor(Value::unknown()), Value::Unknown);
}
