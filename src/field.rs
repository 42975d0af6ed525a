//! Elements of the scalar field of BLS12-381, held as two 128-bit halves.
use vstd::prelude::*;
use crate::bits::{bound128, two_pow, bits_value, lemma_two_pow_128, lemma_bits_value_split};
use vstd::arithmetic::div_mod::lemma_fundamental_div_mod_converse;

verus! {

/// High half of the field modulus.
pub const MODULUS_HI: u128 = 0x73eda753299d7d483339d80809a1d805;

/// Low half of the field modulus.
pub const MODULUS_LO: u128 = 0x53bda402fffe5bfeffffffff00000001;

/// Number of low bits that any bit pattern may fill and still name a distinct
/// field element: one less than the bit length of the modulus.
pub const CAPACITY: usize = 254;

/// `2^64`, the radix of a limb.
pub open spec fn limb_radix() -> nat {
    0x1_0000_0000_0000_0000nat
}

/// The integer held by four 64-bit limbs, least significant first.
pub open spec fn limbs_value(l: Seq<u64>) -> nat {
    l[0] as nat + limb_radix() * (l[1] as nat + limb_radix() * (l[2] as nat + limb_radix()
        * l[3] as nat))
}

/// The prime modulus `r` of the field.
pub open spec fn modulus() -> nat {
    MODULUS_HI as nat * bound128() + MODULUS_LO as nat
}

/// Subtraction in the field, on canonical values.
pub open spec fn field_sub(x: nat, y: nat) -> nat {
    ((x - y) % (modulus() as int)) as nat
}

/// A field element: the integer `hi * 2^128 + lo`, below the modulus when
/// well formed.
#[derive(Clone, Copy, Debug, PartialEq, Eq, Structural)]
pub struct Scalar {
    pub lo: u128,
    pub hi: u128,
}

impl Scalar {
    pub open spec fn value(self) -> nat {
        self.hi as nat * bound128() + self.lo as nat
    }

    pub open spec fn wf(self) -> bool {
        self.value() < modulus()
    }

    /// Whether the element is representable in 128 bits.
    pub open spec fn fits_128(self) -> bool {
        self.value() < bound128()
    }

    /// The element whose value is `v`.
    pub fn from_u128(v: u128) -> (r: Scalar)
        ensures
            r.wf(),
            r.value() == v,
    {
        Scalar { lo: v, hi: 0 }
    }

    /// The element with the given halves, if their value is below the modulus.
    pub fn new(lo: u128, hi: u128) -> (r: Option<Scalar>)
        ensures
            r is Some <==> (hi as nat) * bound128() + (lo as nat) < modulus(),
            r matches Some(s) ==> s.lo == lo && s.hi == hi,
    {
        if hi < MODULUS_HI || (hi == MODULUS_HI && lo < MODULUS_LO) {
            Some(Scalar { lo, hi })
        } else {
            None
        }
    }

    /// The element's four 64-bit limbs, least significant first.
    pub fn to_limbs(&self) -> (r: [u64; 4])
        ensures
            limbs_value(r@) == self.value(),
    {
        let radix: u128 = 0x1_0000_0000_0000_0000;
        let r = [
            (self.lo % radix) as u64,
            (self.lo / radix) as u64,
            (self.hi % radix) as u64,
            (self.hi / radix) as u64,
        ];
        proof {
            vstd::arithmetic::div_mod::lemma_fundamental_div_mod(self.lo as int, radix as int);
            vstd::arithmetic::div_mod::lemma_fundamental_div_mod(self.hi as int, radix as int);
            assert(r@[0] == self.lo % radix && r@[1] == self.lo / radix);
            assert(r@[2] == self.hi % radix && r@[3] == self.hi / radix);
        }
        r
    }

    /// The element held by four 64-bit limbs, least significant first.
    pub fn from_limbs(l: [u64; 4]) -> (r: Scalar)
        requires
            limbs_value(l@) < modulus(),
        ensures
            r.wf(),
            r.value() == limbs_value(l@),
    {
        let radix: u128 = 0x1_0000_0000_0000_0000;
        Scalar { lo: l[0] as u128 + l[1] as u128 * radix, hi: l[2] as u128 + l[3] as u128 * radix }
    }

    /// Checks whether the element fits in 128 bits.
    pub fn is_128_bit(&self) -> (r: bool)
        ensures
            r == self.fits_128(),
    {
        self.hi == 0
    }

    /// The element whose little-endian bits are `bits[start..start + len]`,
    /// with `len` at most the field's capacity.
    pub fn from_bits(bits: &Vec<bool>, start: usize, len: usize) -> (r: Scalar)
        requires
            start + len <= bits.len(),
            len <= CAPACITY,
        ensures
            r.wf(),
            r.value() == bits_value(bits@.subrange(start as int, start + len)),
    {
        let mid: usize = if len <= 128 { start + len } else { start + 128 };
        let lo = crate::bits::recombine(bits, start, mid);
        let hi = crate::bits::recombine(bits, mid, start + len);
        proof {
            let s = bits@.subrange(start as int, start + len);
            let k = (mid - start) as nat;
            lemma_bits_value_split(s, k);
            assert(s.take(k as int) =~= bits@.subrange(start as int, mid as int));
            assert(s.skip(k as int) =~= bits@.subrange(mid as int, start + len));
            assert(bits_value(s) == lo + two_pow(k) * hi);
            lemma_two_pow_128();
            if len > 128 {
                assert(two_pow(k) * (hi as nat) == bound128() * (hi as nat));
                crate::bits::lemma_bits_value_bound(s.skip(mid - start));
                crate::bits::lemma_two_pow_mono((len - 128) as nat, 126);
                reveal_with_fuel(two_pow, 1);
                assert(hi < 0x4000_0000_0000_0000_0000_0000_0000_0000) by {
                    lemma_126();
                }
            } else {
                assert(bits_value(s.skip(k as int)) == 0);
                assert(two_pow(k) * (hi as nat) == 0 && (hi as nat) * bound128() == 0)
                    by (nonlinear_arith)
                    requires
                        hi == 0,
                ;
            }
            assert((Scalar { lo, hi }).value() == bits_value(s));
        }
        Scalar { lo, hi }
    }
}

proof fn lemma_126()
    ensures
        two_pow(126) == 0x4000_0000_0000_0000_0000_0000_0000_0000nat,
{
    lemma_two_pow_128();
    reveal_with_fuel(two_pow, 3);
}

/// `a - b` on values where `a >= b`.
fn sub_no_borrow(a: Scalar, b: Scalar) -> (r: Scalar)
    requires
        a.value() >= b.value(),
    ensures
        r.value() == a.value() - b.value(),
{
    if a.lo >= b.lo {
        Scalar { lo: a.lo - b.lo, hi: a.hi - b.hi }
    } else {
        Scalar { lo: (u128::MAX - b.lo) + a.lo + 1, hi: a.hi - b.hi - 1 }
    }
}

/// `a + b` on values whose sum is below the modulus.
fn add_no_carry(a: Scalar, b: Scalar) -> (r: Scalar)
    requires
        a.value() + b.value() < modulus(),
    ensures
        r.value() == a.value() + b.value(),
{
    if a.lo <= u128::MAX - b.lo {
        Scalar { lo: a.lo + b.lo, hi: a.hi + b.hi }
    } else {
        Scalar { lo: a.lo - (u128::MAX - b.lo) - 1, hi: a.hi + b.hi + 1 }
    }
}

/// Field subtraction `x - y`.
pub fn subtract(x: Scalar, y: Scalar) -> (r: Scalar)
    requires
        x.wf(),
        y.wf(),
    ensures
        r.wf(),
        r.value() == field_sub(x.value(), y.value()),
{
    let m = Scalar { lo: MODULUS_LO, hi: MODULUS_HI };
    if x.hi > y.hi || (x.hi == y.hi && x.lo >= y.lo) {
        let r = sub_no_borrow(x, y);
        proof {
            lemma_fundamental_div_mod_converse(
                x.value() - y.value(),
                modulus() as int,
                0,
                x.value() - y.value(),
            );
        }
        r
    } else {
        let gap = sub_no_borrow(m, y);
        let r = add_no_carry(x, gap);
        proof {
            lemma_fundamental_div_mod_converse(
                x.value() - y.value(),
                modulus() as int,
                -1,
                r.value() as int,
            );
        }
        r
    }
}

} // verus!
