//! The Pedersen commitment to a withdrawal: `value·G + blinding·H` on the
//! Jubjub curve, for two fixed, independent generators `G` and `H`.
use vstd::prelude::*;
use sapling_crypto_ce::bellman::pairing::bls12_381::{Bls12, Fr, FrRepr};
use sapling_crypto_ce::bellman::pairing::ff::PrimeField;
use sapling_crypto_ce::jubjub::edwards;
use sapling_crypto_ce::jubjub::fs::FsRepr;
use sapling_crypto_ce::jubjub::{FixedGenerators, JubjubBls12, JubjubParams, Unknown};
use crate::bits::bound128;
use crate::field::{limbs_value, modulus, Scalar};

verus! {

/// The Jubjub curve's parameters over BLS12-381.
#[verifier::external_type_specification]
#[verifier::external_body]
pub struct ExJubjubBls12(JubjubBls12);

/// The two fixed generators of the value commitment.
#[derive(Clone, Copy, Debug, PartialEq, Eq, Structural)]
pub enum Generator {
    /// `G`, which the withdrawal amount multiplies.
    Value,
    /// `H`, which the blinding factor multiplies.
    Randomness,
}

/// The twisted Edwards constant `d = -(10240/10241)` of the Jubjub curve.
pub open spec fn edwards_d() -> int {
    0x2a9318e74bfa2b48f5fd9207e6bd7fd4int * bound128() + 0x292d7f6d37579d2601065fd6d6343eb1int
}

/// `(x, y)` lies on the Jubjub curve `-x^2 + y^2 = 1 + d·x^2·y^2`.
pub open spec fn on_curve(x: nat, y: nat) -> bool {
    let m = modulus() as int;
    (y * y - x * x) % m == (1 + edwards_d() * (x * x) * (y * y)) % m
}

/// The affine coordinates of `scalar` times the generator `base`.
pub uninterp spec fn base_multiple_of(base: Generator, scalar: nat) -> (nat, nat);

/// The affine coordinates of the sum of the points `(x1, y1)` and `(x2, y2)`.
pub uninterp spec fn point_sum_of(x1: nat, y1: nat, x2: nat, y2: nat) -> (nat, nat);

/// The commitment point `value·G + blinding·H`.
pub open spec fn commitment_of(value: nat, blinding: nat) -> (nat, nat) {
    let g = base_multiple_of(Generator::Value, value);
    let h = base_multiple_of(Generator::Randomness, blinding);
    point_sum_of(g.0, g.1, h.0, h.1)
}

/// The affine coordinates held by a pair of four-limb field elements.
pub open spec fn coords(p: ([u64; 4], [u64; 4])) -> (nat, nat) {
    (limbs_value(p.0@), limbs_value(p.1@))
}

/// Both coordinates are canonical field elements.
pub open spec fn canonical(p: ([u64; 4], [u64; 4])) -> bool {
    limbs_value(p.0@) < modulus() && limbs_value(p.1@) < modulus()
}

/// Relies on sapling-crypto_ce's fixed-base multiplication:
/// `JubjubParams::generator` for the generator, `edwards::Point::mul` on the
/// scalar's 256-bit representation, and `into_xy` with
/// `PrimeField::into_repr` for the product's affine coordinates, which are
/// canonical and lie on the curve.
#[verifier::external_body]
fn fixed_base_mul(params: &JubjubBls12, base: Generator, scalar: [u64; 4]) -> (r: (
    [u64; 4],
    [u64; 4],
))
    ensures
        canonical(r),
        on_curve(coords(r).0, coords(r).1),
        coords(r) == base_multiple_of(base, limbs_value(scalar@)),
{
    let g = match base {
        Generator::Value => FixedGenerators::ValueCommitmentValue,
        Generator::Randomness => FixedGenerators::ValueCommitmentRandomness,
    };
    let (x, y) = params.generator(g).mul(FsRepr(scalar), params).into_xy();
    (x.into_repr().0, y.into_repr().0)
}

/// Relies on sapling-crypto_ce's point addition: `edwards::Point::from_xy`,
/// which refuses a point off the curve, `edwards::Point::add`, and `into_xy`
/// with `PrimeField::into_repr` for the sum's canonical affine coordinates.
#[verifier::external_body]
fn point_add(
    params: &JubjubBls12,
    p: ([u64; 4], [u64; 4]),
    q: ([u64; 4], [u64; 4]),
) -> (r: Option<([u64; 4], [u64; 4])>)
    requires
        canonical(p),
        canonical(q),
    ensures
        r.is_some() == (on_curve(coords(p).0, coords(p).1) && on_curve(coords(q).0, coords(q).1)),
        r matches Some(s) ==> canonical(s),
        r matches Some(s) ==> coords(s) == point_sum_of(coords(p).0, coords(p).1, coords(q).0, coords(q).1),
{
    let (px, py) = (Fr::from_repr(FrRepr(p.0)).unwrap(), Fr::from_repr(FrRepr(p.1)).unwrap());
    let (qx, qy) = (Fr::from_repr(FrRepr(q.0)).unwrap(), Fr::from_repr(FrRepr(q.1)).unwrap());
    let a = edwards::Point::<Bls12, Unknown>::from_xy(px, py, params)?;
    let b = edwards::Point::<Bls12, Unknown>::from_xy(qx, qy, params)?;
    let (x, y) = a.add(&b, params).into_xy();
    Some((x.into_repr().0, y.into_repr().0))
}

/// The coordinates of the withdrawal's commitment point
/// `value·G + blinding·H`.
pub fn commit(params: &JubjubBls12, value: Scalar, blinding: Scalar) -> (r: (Scalar, Scalar))
    requires
        value.wf(),
        blinding.wf(),
    ensures
        r.0.wf(),
        r.1.wf(),
        (r.0.value(), r.1.value()) == commitment_of(value.value(), blinding.value()),
{
    let g = fixed_base_mul(params, Generator::Value, value.to_limbs());
    let h = fixed_base_mul(params, Generator::Randomness, blinding.to_limbs());
    match point_add(params, g, h) {
        Some(s) => (Scalar::from_limbs(s.0), Scalar::from_limbs(s.1)),
        None => {
            assert(false);
            (Scalar::from_u128(0), Scalar::from_u128(0))
        },
    }
}

} // verus!
