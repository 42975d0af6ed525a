//! The account state transition circuit, evaluated on its witness: each
//! variable the circuit allocates gets its value, and each constraint is
//! checked on those values.
use vstd::prelude::*;
use crate::bits::{bits_value, bound128, lemma_bits_value_bound, lemma_two_pow_128};
use crate::field::{field_sub, modulus, subtract, Scalar};
use crate::hash::{state_commitment, state_commitment_of};
use crate::commitment::{commit, commitment_of};
use sapling_crypto_ce::jubjub::JubjubBls12;

verus! {

/// Number of bits of an account value.
pub const NUM_VALUE_BITS: usize = 128;

/// Number of bits of an account blinding factor.
pub const NUM_BLINDING_BITS: usize = 128;

/// The private bits of an account: absent entries stand for witnesses not
/// known when only the circuit's structure is wanted.
#[derive(Debug)]
pub struct AccountWitness {
    pub old_blinding_bits: Vec<Option<bool>>,
    pub new_blinding_bits: Vec<Option<bool>>,
    pub value_bits: Vec<Option<bool>>,
}

/// The withdrawal: its amount and the blinding factor of its commitment.
#[derive(Clone, Copy, Debug)]
pub struct UTXOWitness {
    pub value: Option<Scalar>,
    pub blinding: Option<Scalar>,
}

/// One instance of the circuit: the curve parameters, the public state
/// commitment and the witnesses.
pub struct ConfidentialAccount<'a> {
    pub params: &'a JubjubBls12,
    pub current_state: Option<Scalar>,
    pub witness: AccountWitness,
    pub utxo: UTXOWitness,
}

/// Why synthesis stopped.
#[derive(Clone, Copy, Debug, PartialEq, Eq, Structural)]
pub enum SynthesisError {
    /// A bit sequence of the witness does not have its fixed length.
    BitLengthMismatch,
    /// A witness value that synthesis reads is absent.
    AssignmentMissing,
}

/// The values the circuit's variables take on a complete witness.
#[derive(Clone, Copy, Debug)]
pub struct Assignment {
    /// The public input for the account's current state.
    pub current_state: Scalar,
    /// The account value recombined from its bits.
    pub value: u128,
    /// The truncated digest of the account's blinding and value bits.
    pub state_hash: Scalar,
    /// The withdrawal amount.
    pub utxo_value: Scalar,
    /// The blinding factor of the withdrawal's commitment.
    pub utxo_blinding: Scalar,
    /// The account value minus the withdrawal, in the field.
    pub remaining_value: Scalar,
    /// The public x-coordinate of the withdrawal's commitment point.
    pub commitment_x: Scalar,
    /// The public y-coordinate of the withdrawal's commitment point.
    pub commitment_y: Scalar,
}

/// A copy of a sequence of optional bits.
fn copy_bits(bits: &Vec<Option<bool>>) -> (r: Vec<Option<bool>>)
    ensures
        r@ == bits@,
{
    let mut out: Vec<Option<bool>> = Vec::new();
    let mut i: usize = 0;
    while i < bits.len()
        invariant
            i <= bits.len(),
            out@ =~= bits@.take(i as int),
        decreases bits.len() - i,
    {
        out.push(bits[i]);
        i = i + 1;
    }
    assert(bits@.take(i as int) =~= bits@);
    out
}

impl Clone for AccountWitness {
    fn clone(&self) -> (r: Self)
        ensures
            r.old_blinding_bits@ == self.old_blinding_bits@,
            r.new_blinding_bits@ == self.new_blinding_bits@,
            r.value_bits@ == self.value_bits@,
    {
        AccountWitness {
            old_blinding_bits: copy_bits(&self.old_blinding_bits),
            new_blinding_bits: copy_bits(&self.new_blinding_bits),
            value_bits: copy_bits(&self.value_bits),
        }
    }
}

impl<'a> Clone for ConfidentialAccount<'a> {
    /// A copy to synthesize, which consumes nothing of the original.
    fn clone(&self) -> (r: Self)
        ensures
            r.params == self.params,
            r.current_state == self.current_state,
            r.witness.old_blinding_bits@ == self.witness.old_blinding_bits@,
            r.witness.new_blinding_bits@ == self.witness.new_blinding_bits@,
            r.witness.value_bits@ == self.witness.value_bits@,
            r.utxo == self.utxo,
    {
        ConfidentialAccount {
            params: self.params,
            current_state: self.current_state,
            witness: self.witness.clone(),
            utxo: self.utxo,
        }
    }
}

/// Every entry of `bits` is present.
pub open spec fn all_assigned(bits: Seq<Option<bool>>) -> bool {
    forall|i: int| 0 <= i < bits.len() ==> bits[i] is Some
}

/// The values of the present entries of `bits`.
pub open spec fn assigned_bits(bits: Seq<Option<bool>>) -> Seq<bool> {
    Seq::new(bits.len(), |i: int| bits[i] == Some(true))
}

impl AccountWitness {
    /// Each bit sequence has its fixed length.
    pub open spec fn well_formed(&self) -> bool {
        &&& self.old_blinding_bits@.len() == NUM_BLINDING_BITS
        &&& self.new_blinding_bits@.len() == NUM_BLINDING_BITS
        &&& self.value_bits@.len() == NUM_VALUE_BITS
    }

    /// The account value that the value bits encode.
    pub open spec fn account_value(&self) -> nat {
        bits_value(assigned_bits(self.value_bits@))
    }

    /// The state commitment that the old blinding bits and the value bits hash to.
    pub open spec fn state_commitment(&self) -> nat {
        state_commitment_of(assigned_bits(self.old_blinding_bits@), assigned_bits(self.value_bits@))
    }

    /// Checks the fixed length of each bit sequence.
    pub fn check_lengths(&self) -> (r: Result<(), SynthesisError>)
        ensures
            r is Ok <==> self.well_formed(),
            r is Err ==> r == Err::<(), SynthesisError>(SynthesisError::BitLengthMismatch),
    {
        if self.old_blinding_bits.len() == NUM_BLINDING_BITS && self.new_blinding_bits.len()
            == NUM_BLINDING_BITS && self.value_bits.len() == NUM_VALUE_BITS {
            Ok(())
        } else {
            Err(SynthesisError::BitLengthMismatch)
        }
    }
}

impl<'a> ConfidentialAccount<'a> {
    /// Every witness value that synthesis reads is present (the new blinding
    /// bits are not read).
    pub open spec fn witness_complete(&self) -> bool {
        &&& self.current_state is Some
        &&& all_assigned(self.witness.old_blinding_bits@)
        &&& all_assigned(self.witness.value_bits@)
        &&& self.utxo.value is Some
        &&& self.utxo.blinding is Some
    }

    /// The field elements of the instance are canonical.
    pub open spec fn scalars_wf(&self) -> bool {
        &&& (self.current_state matches Some(s) ==> s.wf())
        &&& (self.utxo.value matches Some(s) ==> s.wf())
        &&& (self.utxo.blinding matches Some(s) ==> s.wf())
    }

    /// `a` is the assignment of this instance's circuit.
    pub open spec fn assigns(&self, a: Assignment) -> bool {
        &&& a.current_state == self.current_state->Some_0
        &&& a.value == self.witness.account_value()
        &&& a.state_hash.wf()
        &&& a.state_hash.value() == self.witness.state_commitment()
        &&& a.utxo_value == self.utxo.value->Some_0
        &&& a.utxo_blinding == self.utxo.blinding->Some_0
        &&& a.remaining_value.wf()
        &&& a.remaining_value.value() == field_sub(a.value as nat, a.utxo_value.value())
        &&& a.commitment_x.wf()
        &&& a.commitment_y.wf()
        &&& (a.commitment_x.value(), a.commitment_y.value()) == commitment_of(
            a.utxo_value.value(),
            a.utxo_blinding.value(),
        )
    }
}

impl Assignment {
    /// The constraints that an assignment built by synthesis can violate
    /// hold: the state digest equals the public state, and both the
    /// withdrawal and the remaining value fit in 128 bits. The others (each
    /// bit is 0 or 1, the value and the digest are their bits' weighted
    /// sums, the remaining value is the difference, the commitment is its
    /// point) hold of such an assignment by construction.
    pub open spec fn satisfied(&self) -> bool {
        &&& self.state_hash == self.current_state
        &&& self.utxo_value.fits_128()
        &&& self.remaining_value.fits_128()
    }

    /// Checks the constraints that an assignment built by synthesis can
    /// violate.
    pub fn is_satisfied(&self) -> (r: bool)
        ensures
            r == self.satisfied(),
    {
        self.state_hash == self.current_state && self.utxo_value.is_128_bit()
            && self.remaining_value.is_128_bit()
    }

    /// The public inputs, in order: the current state and the commitment
    /// point's two coordinates.
    pub fn public_inputs(&self) -> (r: Vec<Scalar>)
        ensures
            r@ == seq![self.current_state, self.commitment_x, self.commitment_y],
    {
        let r = vec![self.current_state, self.commitment_x, self.commitment_y];
        assert(r@ =~= seq![self.current_state, self.commitment_x, self.commitment_y]);
        r
    }
}

/// Reads a sequence of present bits.
fn read_bits(bits: &Vec<Option<bool>>) -> (r: Result<Vec<bool>, SynthesisError>)
    ensures
        r is Ok <==> all_assigned(bits@),
        r matches Ok(v) ==> v@ == assigned_bits(bits@),
        r is Err ==> r == Err::<Vec<bool>, SynthesisError>(SynthesisError::AssignmentMissing),
{
    let mut out: Vec<bool> = Vec::new();
    let mut i: usize = 0;
    while i < bits.len()
        invariant
            i <= bits.len(),
            all_assigned(bits@.take(i as int)),
            out@ =~= assigned_bits(bits@.take(i as int)),
        decreases bits.len() - i,
    {
        match bits[i] {
            Some(b) => {
                out.push(b);
            },
            None => {
                return Err(SynthesisError::AssignmentMissing);
            },
        }
        i = i + 1;
        assert(bits@.take(i as int).drop_last() =~= bits@.take(i - 1));
    }
    assert(bits@.take(i as int) =~= bits@);
    Ok(out)
}

fn read_scalar(s: Option<Scalar>) -> (r: Result<Scalar, SynthesisError>)
    ensures
        r is Ok <==> s is Some,
        r matches Ok(v) ==> s == Some(v),
        r is Err ==> r == Err::<Scalar, SynthesisError>(SynthesisError::AssignmentMissing),
{
    match s {
        Some(v) => Ok(v),
        None => Err(SynthesisError::AssignmentMissing),
    }
}

/// A withdrawal from an account value below `2^128` keeps both range checks
/// satisfied exactly when it does not exceed that value: a larger withdrawal
/// either needs more than 128 bits itself or wraps the remaining value round
/// the modulus, far beyond 128 bits.
pub proof fn lemma_solvency(v: nat, u: Scalar)
    requires
        v < bound128(),
        u.wf(),
    ensures
        (u.fits_128() && field_sub(v, u.value()) < bound128()) <==> u.value() <= v,
{
    let m = modulus() as int;
    let d = v - u.value();
    if u.value() <= v {
        vstd::arithmetic::div_mod::lemma_fundamental_div_mod_converse(d, m, 0, d);
    } else {
        vstd::arithmetic::div_mod::lemma_fundamental_div_mod_converse(d, m, -1, d + m);
    }
}

impl<'a> ConfidentialAccount<'a> {
    /// Synthesizes the circuit on this instance's witness and returns the
    /// values its variables take.
    pub fn synthesize(&self) -> (r: Result<Assignment, SynthesisError>)
        requires
            self.scalars_wf(),
        ensures
            r == Err::<Assignment, SynthesisError>(SynthesisError::BitLengthMismatch)
                <==> !self.witness.well_formed(),
            r == Err::<Assignment, SynthesisError>(SynthesisError::AssignmentMissing)
                <==> self.witness.well_formed() && !self.witness_complete(),
            r is Ok <==> self.witness.well_formed() && self.witness_complete(),
            r matches Ok(a) ==> self.assigns(a),
            r matches Ok(a) ==> (a.state_hash == a.current_state <==> self.witness.state_commitment()
                == a.current_state.value()),
            r matches Ok(a) ==> (a.utxo_value.fits_128() && a.utxo_value.value()
                > self.witness.account_value() ==> !a.remaining_value.fits_128()),
            r matches Ok(a) ==> (a.satisfied() <==> (self.witness.state_commitment()
                == a.current_state.value() && a.utxo_value.value() <= self.witness.account_value())),
    {
        self.witness.check_lengths()?;
        let current_state = read_scalar(self.current_state)?;
        let blinding_bits = read_bits(&self.witness.old_blinding_bits)?;
        let value_bits = read_bits(&self.witness.value_bits)?;
        let value = crate::bits::recombine(&value_bits, 0, NUM_VALUE_BITS);
        assert(value_bits@.subrange(0, NUM_VALUE_BITS as int) =~= value_bits@);
        let state_hash = state_commitment(&blinding_bits, &value_bits);
        let utxo_value = read_scalar(self.utxo.value)?;
        let utxo_blinding = read_scalar(self.utxo.blinding)?;
        proof {
            lemma_bits_value_bound(value_bits@);
            lemma_two_pow_128();
        }
        let (commitment_x, commitment_y) = commit(self.params, utxo_value, utxo_blinding);
        let remaining_value = subtract(Scalar::from_u128(value), utxo_value);
        let a = Assignment {
            current_state,
            value,
            state_hash,
            utxo_value,
            utxo_blinding,
            remaining_value,
            commitment_x,
            commitment_y,
        };
        proof {
            lemma_solvency(value as nat, utxo_value);
            if utxo_value.fits_128() && utxo_value.value() > value {
                lemma_overdraft(value as nat, utxo_value);
            }
            if a.state_hash.value() == a.current_state.value() {
                lemma_scalar_eq(a.state_hash, a.current_state);
            }
        }
        Ok(a)
    }
}

/// A withdrawal that fits in 128 bits but exceeds the account value leaves a
/// remaining value that does not fit in 128 bits.
pub proof fn lemma_overdraft(v: nat, u: Scalar)
    requires
        v < bound128(),
        u.wf(),
        u.fits_128(),
        u.value() > v,
    ensures
        field_sub(v, u.value()) >= bound128(),
{
    lemma_solvency(v, u);
}

/// Synthesis is deterministic: an instance has at most one assignment, so
/// two syntheses of the same instance give the same values, public inputs
/// included.
pub proof fn lemma_synthesis_deterministic<'a>(c: ConfidentialAccount<'a>, a1: Assignment, a2: Assignment)
    requires
        c.assigns(a1),
        c.assigns(a2),
    ensures
        a1 == a2,
{
    lemma_scalar_eq(a1.state_hash, a2.state_hash);
    lemma_scalar_eq(a1.remaining_value, a2.remaining_value);
    lemma_scalar_eq(a1.commitment_x, a2.commitment_x);
    lemma_scalar_eq(a1.commitment_y, a2.commitment_y);
}

/// Two field elements with the same value are the same element.
pub proof fn lemma_scalar_eq(a: Scalar, b: Scalar)
    requires
        a.value() == b.value(),
    ensures
        a == b,
{
    let m = bound128() as int;
    vstd::arithmetic::div_mod::lemma_fundamental_div_mod_converse(a.value() as int, m, a.hi as int, a.lo as int);
    vstd::arithmetic::div_mod::lemma_fundamental_div_mod_converse(a.value() as int, m, b.hi as int, b.lo as int);
    vstd::arithmetic::div_mod::lemma_fundamental_div_mod(a.value() as int, m);
}

} // verus!
