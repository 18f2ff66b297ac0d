//! Secret and initialization-vector generation.
//!
//! One externally supplied 64-bit entropy value is turned into internal
//! secrets. A secret taken verbatim must pass the balance test
//! ([`generate_secret`]); the two initialization words of the rotate/xor
//! hasher are expanded from the entropy value by a xorshift-style generator,
//! each word accepted as soon as its population count is balanced
//! ([`generate_iv`]).

use vstd::prelude::*;
use crate::bits::{balanced, popcount, rotl, rotl64, wadd};

verus! {

/// The four-word state of the internal xorshift-style generator.
pub type GenState = (u64, u64, u64, u64);

pub const SEED_W0: u64 = 0x180ec6d33cfd0aba;

pub const SEED_W1: u64 = 0xd5a61266f0c9392c;

pub const SEED_W2: u64 = 0xa9582618e03fc9aa;

pub const SEED_W3: u64 = 0x39abdc4529b1661c;

/// One round of the xorshift-style generator.
pub open spec fn xsr_step(s: GenState) -> GenState {
    let t = s.1 << 17u64;
    let w2 = s.2 ^ s.0;
    let w3 = s.3 ^ s.1;
    let w1 = s.1 ^ w2;
    let w0 = s.0 ^ w3;
    (w0, w1, w2 ^ t, rotl(w3, 45))
}

/// The generator state after `n` rounds from `s`.
pub open spec fn xsr_iter(s: GenState, n: nat) -> GenState
    decreases n,
{
    if n == 0 {
        s
    } else {
        xsr_step(xsr_iter(s, (n - 1) as nat))
    }
}

/// The IV candidate read off a generator state.
pub open spec fn candidate(s: GenState) -> u64 {
    wadd(rotl(wadd(s.0, s.3), 23), s.0)
}

/// Run the generator until a balanced candidate appears, at most `fuel`
/// rounds; the final round's candidate is kept even when unbalanced.
/// Returns the chosen word and the generator state it was read from.
pub open spec fn search(s: GenState, fuel: nat) -> (u64, GenState)
    recommends
        fuel >= 1,
    decreases fuel,
{
    let s1 = xsr_step(s);
    let c = candidate(s1);
    if balanced(c) || fuel <= 1 {
        (c, s1)
    } else {
        search(s1, (fuel - 1) as nat)
    }
}

/// The generator state seeded from one entropy value.
pub open spec fn seeded(secret: u64) -> GenState {
    (SEED_W0 ^ secret, SEED_W1, SEED_W2, SEED_W3)
}

/// The state from which the first IV word is searched: seeded, then 20
/// warm-up rounds.
pub open spec fn first_search_start(secret: u64) -> GenState {
    xsr_iter(seeded(secret), 20)
}

/// The state from which the second IV word is searched: 20 more warm-up
/// rounds after the first search stopped.
pub open spec fn second_search_start(secret: u64) -> GenState {
    xsr_iter(search(first_search_start(secret), 1000).1, 20)
}

/// The initialization pair derived from one entropy value.
pub open spec fn iv_of(secret: u64) -> (u64, u64) {
    (search(first_search_start(secret), 1000).0, search(second_search_start(secret), 1000).0)
}

/// The four generator words as a tuple.
pub open spec fn quad(a: [u64; 4]) -> GenState {
    (a[0], a[1], a[2], a[3])
}

/// One round of the generator, in place.
pub fn rnd_xsr256(s: &mut [u64; 4])
    ensures
        quad(*final(s)) == xsr_step(quad(*old(s))),
{
    let t: u64 = s[1] << 17u64;
    let w2: u64 = s[2] ^ s[0];
    let w3: u64 = s[3] ^ s[1];
    let w1: u64 = s[1] ^ w2;
    let w0: u64 = s[0] ^ w3;
    let w2: u64 = w2 ^ t;
    let w3: u64 = rotl64(w3, 45);
    *s = [w0, w1, w2, w3];
}

/// Twenty discarded generator rounds.
fn warmup(s: &mut [u64; 4])
    ensures
        quad(*final(s)) == xsr_iter(quad(*old(s)), 20),
{
    let ghost s0 = quad(*s);
    for i in 0..20usize
        invariant
            quad(*s) == xsr_iter(s0, i as nat),
    {
        rnd_xsr256(s);
    }
}

/// Search for one balanced IV word, at most 1000 generator rounds.
fn search_word(s: &mut [u64; 4]) -> (e: u64)
    ensures
        (e, quad(*final(s))) == search(quad(*old(s)), 1000),
{
    let ghost s0 = quad(*s);
    let mut e: u64 = 0;
    let mut found = false;
    let mut i: usize = 0;
    while !found && i < 1000
        invariant
            i <= 1000,
            (found || i == 1000) ==> (e, quad(*s)) == search(s0, 1000),
            (!found && i < 1000) ==> search(quad(*s), (1000 - i) as nat) == search(s0, 1000),
        decreases 1000 - i,
    {
        let ghost sp = quad(*s);
        let ghost f = (1000 - i) as nat;
        rnd_xsr256(s);
        let c: u64 = rotl64(s[0].wrapping_add(s[3]), 23).wrapping_add(s[0]);
        e = c;
        let co: u32 = popcount(c);
        if 24 <= co && co <= 40 {
            found = true;
        }
        proof {
            assert(c == candidate(quad(*s)));
            assert(search(sp, f) == if balanced(c) || f <= 1 {
                (c, quad(*s))
            } else {
                search(quad(*s), (f - 1) as nat)
            });
        }
        i = i + 1;
    }
    e
}

/// Derive the two initialization words for the rotate/xor hasher from one
/// entropy value.
pub fn generate_iv(secret: u64) -> (iv: [u64; 2])
    ensures
        iv[0] == iv_of(secret).0,
        iv[1] == iv_of(secret).1,
{
    let mut s: [u64; 4] = [SEED_W0 ^ secret, SEED_W1, SEED_W2, SEED_W3];
    warmup(&mut s);
    let e0: u64 = search_word(&mut s);
    warmup(&mut s);
    let e1: u64 = search_word(&mut s);
    [e0, e1]
}

/// Accept an entropy sample as a secret exactly when it is balanced.
/// The caller draws fresh samples until one is accepted; the first
/// qualifying sample is the secret.
pub fn generate_secret(entropy: u64) -> (r: Option<u64>)
    ensures
        balanced(entropy) ==> r == Some(entropy),
        !balanced(entropy) ==> r is None,
{
    let co: u32 = popcount(entropy);
    if 24 <= co && co <= 40 {
        Some(entropy)
    } else {
        None
    }
}

/// Stepping once and iterating `n` more rounds is iterating `n + 1` rounds.
proof fn lemma_iter_shift(s: GenState, n: nat)
    ensures
        xsr_iter(xsr_step(s), n) == xsr_iter(s, n + 1),
    decreases n,
{
    if n == 0 {
        assert(xsr_iter(s, 1) == xsr_step(xsr_iter(s, 0)));
    } else {
        lemma_iter_shift(s, (n - 1) as nat);
        assert(xsr_iter(xsr_step(s), n) == xsr_step(xsr_iter(xsr_step(s), (n - 1) as nat)));
        assert(xsr_iter(s, n + 1) == xsr_step(xsr_iter(s, n)));
    }
}

/// The word a search returns is balanced, unless every candidate the search
/// could examine was unbalanced (the final candidate is then kept as a
/// best-effort fallback).
pub proof fn lemma_search_balanced(s: GenState, fuel: nat)
    requires
        fuel >= 1,
    ensures
        balanced(search(s, fuel).0) || (forall|i: nat|
            1 <= i <= fuel ==> !balanced(candidate(xsr_iter(s, i)))),
    decreases fuel,
{
    let s1 = xsr_step(s);
    let c = candidate(s1);
    assert(xsr_iter(s, 1) == s1) by {
        lemma_iter_shift(s, 0);
    }
    if !(balanced(c) || fuel <= 1) {
        lemma_search_balanced(s1, (fuel - 1) as nat);
        if !balanced(search(s1, (fuel - 1) as nat).0) {
            assert forall|i: nat| 1 <= i <= fuel implies !balanced(candidate(xsr_iter(s, i))) by {
                if i > 1 {
                    lemma_iter_shift(s, (i - 1) as nat);
                    assert(xsr_iter(s1, (i - 1) as nat) == xsr_iter(s, i));
                }
            }
        }
    }
}

/// Balance of the generated initialization pair: each word of
/// `iv_of(secret)` has a population count in [24, 40], unless none of the
/// 1000 candidates examined for that word was balanced.
pub proof fn lemma_generated_iv_balance(secret: u64)
    ensures
        balanced(iv_of(secret).0) || (forall|i: nat|
            1 <= i <= 1000 ==> !balanced(candidate(xsr_iter(first_search_start(secret), i)))),
        balanced(iv_of(secret).1) || (forall|i: nat|
            1 <= i <= 1000 ==> !balanced(candidate(xsr_iter(second_search_start(secret), i)))),
{
    lemma_search_balanced(first_search_start(secret), 1000);
    lemma_search_balanced(second_search_start(secret), 1000);
}

} // verus!
