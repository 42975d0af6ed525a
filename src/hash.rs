//! The account state commitment: SHA-256 of the account's bits, reversed to
//! least-significant-bit first, truncated to the field's capacity and read as
//! a field element.
use vstd::prelude::*;
use crate::bits::{bits_value, two_pow};
use crate::field::{Scalar, CAPACITY};

verus! {

/// The SHA-256 digest of a byte string.
pub uninterp spec fn sha256_of(data: Seq<u8>) -> Seq<u8>;

/// Relies on rust-crypto's `crypto::sha2::Sha256` (`Digest::input` and
/// `Digest::result`): the 32-byte SHA-256 digest of `data`.
#[verifier::external_body]
fn sha256(data: &Vec<u8>) -> (r: Vec<u8>)
    ensures
        r@ == sha256_of(data@),
        r@.len() == 32,
{
    let mut hasher = crypto::sha2::Sha256::new();
    crypto::digest::Digest::input(&mut hasher, data.as_slice());
    let mut out: Vec<u8> = vec![0u8; 32];
    crypto::digest::Digest::result(&mut hasher, out.as_mut_slice());
    out
}

/// The number whose binary digits are `s`, most significant first.
pub open spec fn msb_value(s: Seq<bool>) -> nat
    decreases s.len(),
{
    if s.len() == 0 {
        0
    } else {
        2 * msb_value(s.drop_last()) + (if s.last() { 1nat } else { 0nat })
    }
}

/// The bytes of a bit string whose length is a multiple of eight, each byte
/// taking eight bits most significant first.
pub open spec fn pack_bits(bits: Seq<bool>) -> Seq<u8> {
    Seq::new(bits.len() / 8, |j: int| msb_value(bits.subrange(8 * j, 8 * j + 8)) as u8)
}

/// The bits of a byte string, each byte most significant bit first.
pub open spec fn unpack_bits(d: Seq<u8>) -> Seq<bool> {
    Seq::new(8 * d.len(), |i: int| (d[i / 8] >> (7 - i % 8) as u8) & 1u8 == 1u8)
}

/// The field element that a 32-byte digest stands for: its bits reversed to
/// least significant first, cut to the field's capacity.
pub open spec fn state_of_digest(d: Seq<u8>) -> nat {
    bits_value(Seq::new(CAPACITY as nat, |i: int| unpack_bits(d)[255 - i]))
}

/// The state commitment of an account's blinding bits and value bits.
pub open spec fn state_commitment_of(blinding: Seq<bool>, value: Seq<bool>) -> nat {
    state_of_digest(sha256_of(pack_bits(blinding + value)))
}

proof fn lemma_msb_value_bound(s: Seq<bool>)
    ensures
        msb_value(s) < two_pow(s.len()),
    decreases s.len(),
{
    if s.len() > 0 {
        lemma_msb_value_bound(s.drop_last());
    }
}

/// Packs a bit string into bytes, eight bits to a byte, most significant first.
pub fn hash_preimage(bits: &Vec<bool>) -> (r: Vec<u8>)
    requires
        bits.len() % 8 == 0,
    ensures
        r@ == pack_bits(bits@),
{
    let n: usize = bits.len() / 8;
    let mut out: Vec<u8> = Vec::new();
    let mut j: usize = 0;
    while j < n
        invariant
            n == bits.len() / 8,
            bits.len() % 8 == 0,
            j <= n,
            out@.len() == j,
            forall|t: int|
                0 <= t < j ==> out@[t] == msb_value(bits@.subrange(8 * t, 8 * t + 8)) as u8,
        decreases n - j,
    {
        let mut acc: u8 = 0;
        let mut k: usize = 0;
        while k < 8
            invariant
                j < n,
                n == bits.len() / 8,
                bits.len() % 8 == 0,
                k <= 8,
                acc as nat == msb_value(bits@.subrange(8 * j, 8 * j + k)),
            decreases 8 - k,
        {
            proof {
                let s = bits@.subrange(8 * j, 8 * j + k);
                lemma_msb_value_bound(s);
                crate::bits::lemma_two_pow_mono(k as nat, 7);
                reveal_with_fuel(two_pow, 8);
                assert(bits@.subrange(8 * j, 8 * j + k + 1).drop_last() =~= s);
            }
            let b: u8 = if bits[8 * j + k] { 1 } else { 0 };
            acc = 2 * acc + b;
            k = k + 1;
        }
        out.push(acc);
        j = j + 1;
    }
    assert(out@ =~= pack_bits(bits@));
    out
}

/// Splits bytes into bits, each byte most significant bit first.
pub fn digest_bits(d: &Vec<u8>) -> (r: Vec<bool>)
    requires
        d.len() <= 0x1000_0000,
    ensures
        r@ == unpack_bits(d@),
{
    let mut out: Vec<bool> = Vec::new();
    let mut j: usize = 0;
    while j < d.len()
        invariant
            j <= d.len() <= 0x1000_0000,
            out@.len() == 8 * j,
            forall|t: int|
                0 <= t < 8 * j ==> out@[t] == ((d@[t / 8] >> (7 - t % 8) as u8) & 1u8 == 1u8),
        decreases d.len() - j,
    {
        let mut k: usize = 0;
        while k < 8
            invariant
                j < d.len() <= 0x1000_0000,
                k <= 8,
                out@.len() == 8 * j + k,
                forall|t: int|
                    0 <= t < 8 * j + k ==> out@[t] == ((d@[t / 8] >> (7 - t % 8) as u8) & 1u8
                        == 1u8),
            decreases 8 - k,
        {
            let byte: u8 = d[j];
            let shift: u8 = 7 - k as u8;
            proof {
                let t = 8 * j + k;
                assert(t / 8 == j && t % 8 == k) by (nonlinear_arith)
                    requires
                        t == 8 * j + k,
                        k < 8,
                ;
            }
            out.push((byte >> shift) & 1u8 == 1u8);
            k = k + 1;
        }
        j = j + 1;
    }
    assert(out@ =~= unpack_bits(d@));
    out
}

/// The field element that a 32-byte digest stands for: the digest's bits
/// reversed to least significant first, truncated to the field's capacity.
pub fn state_from_digest(d: &Vec<u8>) -> (r: Scalar)
    requires
        d.len() == 32,
    ensures
        r.wf(),
        r.value() == state_of_digest(d@),
{
    let bits = digest_bits(d);
    let mut rev: Vec<bool> = Vec::new();
    let mut i: usize = 0;
    while i < CAPACITY
        invariant
            bits@ == unpack_bits(d@),
            bits.len() == 256,
            i <= CAPACITY,
            rev@ =~= Seq::new(i as nat, |t: int| unpack_bits(d@)[255 - t]),
        decreases CAPACITY - i,
    {
        rev.push(bits[255 - i]);
        i = i + 1;
    }
    let r = Scalar::from_bits(&rev, 0, CAPACITY);
    assert(rev@.subrange(0, CAPACITY as int) =~= rev@);
    r
}

/// The state commitment of an account: the digest of its blinding bits
/// followed by its value bits, as a field element.
pub fn state_commitment(blinding: &Vec<bool>, value: &Vec<bool>) -> (r: Scalar)
    requires
        blinding.len() == 128,
        value.len() == 128,
    ensures
        r.wf(),
        r.value() == state_commitment_of(blinding@, value@),
{
    let mut all: Vec<bool> = blinding.clone();
    let mut tail: Vec<bool> = value.clone();
    all.append(&mut tail);
    let preimage = hash_preimage(&all);
    let digest = sha256(&preimage);
    state_from_digest(&digest)
}

} // verus!
