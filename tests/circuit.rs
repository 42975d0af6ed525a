use confidential_account::circuit::{
    AccountWitness, Assignment, ConfidentialAccount, SynthesisError, UTXOWitness,
};
use confidential_account::field::{subtract, Scalar, MODULUS_HI, MODULUS_LO};
use confidential_account::commitment::commit;
use confidential_account::hash::{digest_bits, hash_preimage, state_commitment, state_from_digest};
use sapling_crypto_ce::bellman::pairing::ff::PrimeField;
use sapling_crypto_ce::jubjub::fs::FsRepr;
use sapling_crypto_ce::jubjub::{FixedGenerators, JubjubBls12, JubjubParams};

fn value_bits(v: u128) -> Vec<bool> {
    (0..128).map(|i| (v >> i) & 1 == 1).collect()
}

fn present(bits: &[bool]) -> Vec<Option<bool>> {
    bits.iter().map(|b| Some(*b)).collect()
}

fn account(
    params: &JubjubBls12,
    value: u128,
    blinding: u128,
    utxo_value: u128,
    current_state: Option<Scalar>,
) -> ConfidentialAccount<'_> {
    ConfidentialAccount {
        params,
        current_state,
        witness: AccountWitness {
            old_blinding_bits: present(&value_bits(blinding)),
            new_blinding_bits: vec![None; 128],
            value_bits: present(&value_bits(value)),
        },
        utxo: UTXOWitness {
            value: Some(Scalar::from_u128(utxo_value)),
            blinding: Some(Scalar::from_u128(0x1234_5678_9abc_def0)),
        },
    }
}

fn honest_account(params: &JubjubBls12, value: u128, blinding: u128, utxo_value: u128) -> ConfidentialAccount<'_> {
    let state = state_commitment(&value_bits(blinding), &value_bits(value));
    account(params, value, blinding, utxo_value, Some(state))
}

fn synthesize(c: &ConfidentialAccount) -> Assignment {
    c.synthesize().expect("synthesis succeeds")
}

#[test]
fn withdraw_300_from_1000_is_satisfiable() {
    let p = JubjubBls12::new();
    let a = synthesize(&honest_account(&p, 1000, 0, 300));
    assert_eq!(a.value, 1000);
    assert_eq!(a.remaining_value, Scalar::from_u128(700));
    assert!(a.remaining_value.is_128_bit());
    assert_eq!(a.state_hash, a.current_state);
    assert!(a.is_satisfied());
}

#[test]
fn wrong_current_state_is_unsatisfiable() {
    let p = JubjubBls12::new();
    let c = account(&p, 1000, 0, 300, Some(Scalar::from_u128(12345)));
    let a = synthesize(&c);
    assert_ne!(a.state_hash, a.current_state);
    assert_eq!(a.remaining_value, Scalar::from_u128(700));
    assert!(!a.is_satisfied());
}

#[test]
fn overdraft_wraps_and_fails_range_check() {
    let p = JubjubBls12::new();
    let a = synthesize(&honest_account(&p, 100, 0, 150));
    assert_eq!(a.state_hash, a.current_state);
    assert!(a.utxo_value.is_128_bit());
    assert!(!a.remaining_value.is_128_bit());
    assert_eq!(a.remaining_value, Scalar { lo: MODULUS_LO - 50, hi: MODULUS_HI });
    assert!(!a.is_satisfied());
}

#[test]
fn withdrawing_everything_leaves_zero() {
    let p = JubjubBls12::new();
    let a = synthesize(&honest_account(&p, u128::MAX, 7, u128::MAX));
    assert_eq!(a.remaining_value, Scalar::from_u128(0));
    assert!(a.is_satisfied());
}

#[test]
fn oversized_withdrawal_fails_its_own_range_check() {
    let p = JubjubBls12::new();
    let mut c = honest_account(&p, 0, 0, 0);
    let big = Scalar::new(MODULUS_LO - 5, MODULUS_HI).unwrap();
    c.utxo.value = Some(big);
    let a = synthesize(&c);
    assert!(!a.utxo_value.is_128_bit());
    assert_eq!(a.remaining_value, Scalar::from_u128(5));
    assert!(!a.is_satisfied());
}

#[test]
fn zero_account_state_is_truncated_sha256_of_zero_bytes() {
    // SHA-256 of 32 zero bytes is 66687aad...0d5f2925; the top two bits are dropped.
    let s = state_commitment(&value_bits(0), &value_bits(0));
    assert_eq!(s, Scalar { lo: 0x089714856ee233b3902a591d0d5f2925, hi: 0x26687aadf862bd776c8fc18b8e9f8e20 });
}

#[test]
fn different_blinding_gives_different_state() {
    let a = state_commitment(&value_bits(1), &value_bits(1000));
    let b = state_commitment(&value_bits(2), &value_bits(1000));
    assert_ne!(a, b);
}

#[test]
fn wrong_lengths_are_structural_errors() {
    let p = JubjubBls12::new();
    for len in [0usize, 127, 129] {
        let mut c = honest_account(&p, 1000, 0, 300);
        c.witness.old_blinding_bits = vec![Some(false); len];
        assert_eq!(c.synthesize().unwrap_err(), SynthesisError::BitLengthMismatch);
        let mut c = honest_account(&p, 1000, 0, 300);
        c.witness.new_blinding_bits = vec![Some(true); len];
        assert_eq!(c.synthesize().unwrap_err(), SynthesisError::BitLengthMismatch);
        let mut c = honest_account(&p, 1000, 0, 300);
        c.witness.value_bits = vec![None; len];
        assert_eq!(c.synthesize().unwrap_err(), SynthesisError::BitLengthMismatch);
    }
}

#[test]
fn absent_witnesses_are_assignment_errors() {
    let p = JubjubBls12::new();
    let mut c = honest_account(&p, 1000, 0, 300);
    c.witness.value_bits[5] = None;
    assert_eq!(c.synthesize().unwrap_err(), SynthesisError::AssignmentMissing);
    let mut c = honest_account(&p, 1000, 0, 300);
    c.witness.old_blinding_bits[127] = None;
    assert_eq!(c.synthesize().unwrap_err(), SynthesisError::AssignmentMissing);
    let mut c = honest_account(&p, 1000, 0, 300);
    c.current_state = None;
    assert_eq!(c.synthesize().unwrap_err(), SynthesisError::AssignmentMissing);
    let mut c = honest_account(&p, 1000, 0, 300);
    c.utxo.value = None;
    assert_eq!(c.synthesize().unwrap_err(), SynthesisError::AssignmentMissing);
    let mut c = honest_account(&p, 1000, 0, 300);
    c.utxo.blinding = None;
    assert_eq!(c.synthesize().unwrap_err(), SynthesisError::AssignmentMissing);
}

#[test]
fn length_error_comes_before_missing_values() {
    let p = JubjubBls12::new();
    let mut c = honest_account(&p, 1000, 0, 300);
    c.current_state = None;
    c.witness.value_bits.pop();
    assert_eq!(c.synthesize().unwrap_err(), SynthesisError::BitLengthMismatch);
}

#[test]
fn new_blinding_bits_are_not_read() {
    let p = JubjubBls12::new();
    let a = synthesize(&honest_account(&p, 1000, 0, 300));
    assert!(a.is_satisfied());
}

#[test]
fn synthesis_is_deterministic() {
    let p = JubjubBls12::new();
    let c = honest_account(&p, 987654321, 42, 12345);
    let a = synthesize(&c);
    let b = synthesize(&c.clone());
    assert_eq!(a.current_state, b.current_state);
    assert_eq!(a.value, b.value);
    assert_eq!(a.state_hash, b.state_hash);
    assert_eq!(a.utxo_value, b.utxo_value);
    assert_eq!(a.utxo_blinding, b.utxo_blinding);
    assert_eq!(a.remaining_value, b.remaining_value);
    assert_eq!(a.commitment_x, b.commitment_x);
    assert_eq!(a.commitment_y, b.commitment_y);
    assert_eq!(a.public_inputs(), b.public_inputs());
}

#[test]
fn preimage_packs_bits_msb_first() {
    let mut bits = vec![false; 16];
    bits[0] = true;
    bits[15] = true;
    assert_eq!(hash_preimage(&bits), vec![0x80u8, 0x01]);
}

#[test]
fn digest_bits_are_msb_first() {
    let bits = digest_bits(&vec![0x80u8, 0x03]);
    let expected: Vec<bool> = vec![
        true, false, false, false, false, false, false, false,
        false, false, false, false, false, false, true, true,
    ];
    assert_eq!(bits, expected);
}

#[test]
fn digest_is_reversed_and_truncated() {
    let mut d = vec![0u8; 32];
    d[0] = 0xff;
    d[31] = 0x01;
    let s = state_from_digest(&d);
    assert_eq!(s, Scalar { lo: 1, hi: 0x3f00_0000_0000_0000_0000_0000_0000_0000 });
}

#[test]
fn scalar_new_rejects_the_modulus() {
    assert!(Scalar::new(MODULUS_LO, MODULUS_HI).is_none());
    assert_eq!(Scalar::new(MODULUS_LO - 1, MODULUS_HI), Some(Scalar { lo: MODULUS_LO - 1, hi: MODULUS_HI }));
}

#[test]
fn field_subtraction_borrows_and_wraps() {
    let x = Scalar { lo: 0, hi: 1 };
    assert_eq!(subtract(x, Scalar::from_u128(1)), Scalar { lo: u128::MAX, hi: 0 });
    assert_eq!(subtract(Scalar::from_u128(0), Scalar::from_u128(1)), Scalar { lo: MODULUS_LO - 1, hi: MODULUS_HI });
    assert_eq!(subtract(Scalar::from_u128(9), Scalar::from_u128(9)), Scalar::from_u128(0));
}

#[test]
fn check_lengths_accepts_fixed_lengths() {
    let p = JubjubBls12::new();
    let c = honest_account(&p, 1, 1, 1);
    assert!(c.witness.check_lengths().is_ok());
}

fn scalar_of(f: sapling_crypto_ce::bellman::pairing::bls12_381::Fr) -> Scalar {
    Scalar::from_limbs(f.into_repr().0)
}

#[test]
fn zero_commitment_is_the_identity() {
    let p = JubjubBls12::new();
    let (x, y) = commit(&p, Scalar::from_u128(0), Scalar::from_u128(0));
    assert_eq!(x, Scalar::from_u128(0));
    assert_eq!(y, Scalar::from_u128(1));
}

#[test]
fn commitment_to_one_is_the_value_generator() {
    let p = JubjubBls12::new();
    let (gx, gy) = p.generator(FixedGenerators::ValueCommitmentValue).into_xy();
    let (x, y) = commit(&p, Scalar::from_u128(1), Scalar::from_u128(0));
    assert_eq!(x, scalar_of(gx));
    assert_eq!(y, scalar_of(gy));
}

#[test]
fn distinct_blindings_give_distinct_commitments() {
    let p = JubjubBls12::new();
    let v = Scalar::from_u128(300);
    let c1 = commit(&p, v, Scalar::from_u128(1));
    let c2 = commit(&p, v, Scalar::from_u128(2));
    assert_ne!(c1, c2);
    let a = synthesize(&honest_account(&p, 1000, 0, 300));
    assert_eq!(a.public_inputs(), vec![a.current_state, a.commitment_x, a.commitment_y]);
    assert_eq!((a.commitment_x, a.commitment_y), commit(&p, v, a.utxo_blinding));
}

#[test]
fn limbs_round_trip() {
    let s = Scalar { lo: 0x0011_2233_4455_6677_8899_aabb_ccdd_eeff, hi: 0x0102_0304_0506_0708_090a_0b0c_0d0e_0f10 };
    let l = s.to_limbs();
    assert_eq!(l, [0x8899_aabb_ccdd_eeff, 0x0011_2233_4455_6677, 0x090a_0b0c_0d0e_0f10, 0x0102_0304_0506_0708]);
    assert_eq!(Scalar::from_limbs(l), s);
}

#[test]
fn blindings_apart_by_two_to_the_252_give_distinct_commitments() {
    let p = JubjubBls12::new();
    let v = Scalar::from_u128(300);
    let high = Scalar::new(0, 1u128 << 124).unwrap();
    assert_ne!(commit(&p, v, Scalar::from_u128(0)), commit(&p, v, high));
}

#[test]
fn clone_keeps_every_field() {
    let p = JubjubBls12::new();
    let mut c = honest_account(&p, 1000, 3, 300);
    c.witness.new_blinding_bits[7] = Some(true);
    let d = c.clone();
    assert!(std::ptr::eq(c.params, d.params));
    assert_eq!(c.current_state, d.current_state);
    assert_eq!(c.witness.old_blinding_bits, d.witness.old_blinding_bits);
    assert_eq!(c.witness.new_blinding_bits, d.witness.new_blinding_bits);
    assert_eq!(c.witness.value_bits, d.witness.value_bits);
    assert_eq!(c.utxo.value, d.utxo.value);
    assert_eq!(c.utxo.blinding, d.utxo.blinding);
}

#[test]
fn commitment_to_blinding_one_is_the_randomness_generator() {
    let p = JubjubBls12::new();
    let (hx, hy) = p.generator(FixedGenerators::ValueCommitmentRandomness).into_xy();
    let (x, y) = commit(&p, Scalar::from_u128(0), Scalar::from_u128(1));
    assert_eq!(x, scalar_of(hx));
    assert_eq!(y, scalar_of(hy));
}

#[test]
fn commitment_is_the_sum_of_both_products() {
    let p = JubjubBls12::new();
    let g = p.generator(FixedGenerators::ValueCommitmentValue).mul(FsRepr([300, 0, 0, 0]), &p);
    let h = p.generator(FixedGenerators::ValueCommitmentRandomness).mul(FsRepr([77, 0, 0, 0]), &p);
    let (x, y) = g.add(&h, &p).into_xy();
    assert_eq!(commit(&p, Scalar::from_u128(300), Scalar::from_u128(77)), (scalar_of(x), scalar_of(y)));
}
