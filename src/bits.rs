//! Little-endian bit sequences and their numeric values.
use vstd::prelude::*;

verus! {

/// `2^n`.
pub open spec fn two_pow(n: nat) -> nat
    decreases n,
{
    if n == 0 {
        1
    } else {
        2 * two_pow((n - 1) as nat)
    }
}

/// The number whose little-endian binary digits are `s` (bit 0 is least significant).
pub open spec fn bits_value(s: Seq<bool>) -> nat
    decreases s.len(),
{
    if s.len() == 0 {
        0
    } else {
        (if s[0] { 1nat } else { 0nat }) + 2 * bits_value(s.drop_first())
    }
}

/// `2^128`, the first value that needs more than 128 bits.
pub open spec fn bound128() -> nat {
    0x1_0000_0000_0000_0000_0000_0000_0000_0000nat
}

pub proof fn lemma_two_pow_128()
    ensures
        two_pow(128) == bound128(),
{
    reveal_with_fuel(two_pow, 17);
    assert(two_pow(16) == 0x1_0000nat);
    lemma_two_pow_add(16, 16);
    assert(two_pow(32) == 0x1_0000_0000nat);
    lemma_two_pow_add(32, 32);
    assert(two_pow(64) == 0x1_0000_0000_0000_0000nat);
    lemma_two_pow_add(64, 64);
}

pub proof fn lemma_two_pow_mono(a: nat, b: nat)
    requires
        a <= b,
    ensures
        two_pow(a) <= two_pow(b),
    decreases b,
{
    if a < b {
        lemma_two_pow_mono(a, (b - 1) as nat);
    }
}

pub proof fn lemma_two_pow_add(a: nat, b: nat)
    ensures
        two_pow(a + b) == two_pow(a) * two_pow(b),
    decreases a,
{
    if a == 0 {
        assert(two_pow(0) == 1);
        assert(a + b == b);
    } else {
        lemma_two_pow_add((a - 1) as nat, b);
        assert(two_pow(a + b) == 2 * two_pow((a - 1 + b) as nat));
        assert(2 * (two_pow((a - 1) as nat) * two_pow(b)) == (2 * two_pow((a - 1) as nat))
            * two_pow(b)) by (nonlinear_arith);
    }
}

/// A sequence of `n` bits stands for a value below `2^n`.
pub proof fn lemma_bits_value_bound(s: Seq<bool>)
    ensures
        bits_value(s) < two_pow(s.len()),
    decreases s.len(),
{
    if s.len() > 0 {
        lemma_bits_value_bound(s.drop_first());
    }
}

/// The value of `s` splits at `k` into the value of its first `k` bits and
/// `2^k` times the value of the rest.
pub proof fn lemma_bits_value_split(s: Seq<bool>, k: nat)
    requires
        k <= s.len(),
    ensures
        bits_value(s) == bits_value(s.take(k as int)) + two_pow(k) * bits_value(
            s.skip(k as int),
        ),
    decreases k,
{
    if k == 0 {
        assert(s.take(0) =~= Seq::<bool>::empty());
        assert(s.skip(0) =~= s);
    } else {
        let t = s.drop_first();
        lemma_bits_value_split(t, (k - 1) as nat);
        assert(s.take(k as int).drop_first() =~= t.take(k - 1));
        assert(s.skip(k as int) =~= t.skip(k - 1));
        let r = bits_value(t.skip(k - 1));
        assert(2 * (two_pow((k - 1) as nat) * r) == (2 * two_pow((k - 1) as nat)) * r)
            by (nonlinear_arith);
    }
}

/// Recombines `bits[start..end]`, read little-endian, into one integer.
pub fn recombine(bits: &Vec<bool>, start: usize, end: usize) -> (r: u128)
    requires
        start <= end <= bits.len(),
        end - start <= 128,
    ensures
        r == bits_value(bits@.subrange(start as int, end as int)),
{
    let mut acc: u128 = 0;
    let mut i: usize = end;
    while i > start
        invariant
            start <= i <= end <= bits.len(),
            end - start <= 128,
            acc == bits_value(bits@.subrange(i as int, end as int)),
        decreases i - start,
    {
        proof {
            let tail = bits@.subrange(i as int, end as int);
            lemma_bits_value_bound(tail);
            lemma_two_pow_mono(tail.len(), 127);
            lemma_two_pow_128();
            reveal_with_fuel(two_pow, 2);
            assert(bits@.subrange(i - 1, end as int).drop_first() =~= tail);
        }
        let b: u128 = if bits[i - 1] { 1 } else { 0 };
        acc = b + 2 * acc;
        i = i - 1;
    }
    acc
}

} // verus!
