//! Word-level primitives shared by both hashers: wrapping addition,
//! left rotation, and bit-population counting.

use vstd::prelude::*;
use vstd::arithmetic::power2::{lemma2_to64, lemma2_to64_rest, lemma_pow2_unfold, pow2};

verus! {

/// Addition on `u64` modulo 2^64.
pub open spec fn wadd(a: u64, b: u64) -> u64 {
    vstd::wrapping::u64_specs::wrapping_add(a, b)
}

/// `x` rotated left by `k` bits, for `0 < k < 64`.
pub open spec fn rotl(x: u64, k: u64) -> u64
    recommends
        0 < k < 64,
{
    (x << k) | (x >> ((64 - k) as u64))
}

/// Rotate `x` left by `k` bits.
pub fn rotl64(x: u64, k: u64) -> (r: u64)
    requires
        0 < k < 64,
    ensures
        r == rotl(x, k),
{
    (x << k) | (x >> (64 - k))
}

/// The number of set bits in the binary representation of `n`.
pub open spec fn popcnt(n: nat) -> nat
    decreases n,
{
    if n == 0 {
        0
    } else {
        n % 2 + popcnt(n / 2)
    }
}

/// A 64-bit value is balanced when its population count lies in [24, 40]:
/// secrets drawn from entropy are constrained to this band so that
/// pathologically sparse or dense bit patterns never seed the mixers.
pub open spec fn balanced(x: u64) -> bool {
    24 <= popcnt(x as nat) <= 40
}

/// A value below `pow2(k)` has at most `k` set bits.
pub proof fn lemma_popcnt_le(n: nat, k: nat)
    requires
        n < pow2(k),
    ensures
        popcnt(n) <= k,
    decreases k,
{
    if k == 0 {
        lemma2_to64();
        assert(n == 0);
    } else if n > 0 {
        lemma_pow2_unfold(k);
        assert(n / 2 < pow2((k - 1) as nat));
        lemma_popcnt_le(n / 2, (k - 1) as nat);
    }
}

/// Count the set bits of `x`.
pub fn popcount(x: u64) -> (r: u32)
    ensures
        r == popcnt(x as nat),
{
    proof {
        lemma2_to64();
        lemma2_to64_rest();
        lemma_popcnt_le(x as nat, 64);
    }
    let mut cur: u64 = x;
    let mut acc: u32 = 0;
    while cur != 0
        invariant
            acc + popcnt(cur as nat) == popcnt(x as nat),
            popcnt(x as nat) <= 64,
        decreases cur,
    {
        proof {
            assert(cur & 1 == cur % 2) by (bit_vector);
            assert(cur >> 1 == cur / 2) by (bit_vector);
        }
        acc = acc + (cur & 1) as u32;
        cur = cur >> 1;
    }
    acc
}

} // verus!
