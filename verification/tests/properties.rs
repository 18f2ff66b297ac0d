use bittwidhash::{BitTwidHash, DualDigestExtension, WhyHash};
use std::collections::HashSet;
use std::hash::{BuildHasher, Hasher};

fn entropy_sample(i: u64) -> u64 {
    // A fixed mixing of the index, spread over the whole 64-bit range.
    i.wrapping_mul(0x9e3779b97f4a7c15).rotate_left(17) ^ i.wrapping_mul(0xff51afd7ed558ccd)
}

#[test]
fn determinism_single_call() {
    // Two fresh hashers from the same factory digest the same bytes to the
    // same value, for a randomly keyed factory.
    let factory = BitTwidHash::new();
    for input in [&b""[..], &b"x"[..], &b"determinism"[..], &b"a longer input, well over eight bytes"[..]] {
        let mut h1 = factory.build_hasher();
        h1.write(input);
        let mut h2 = factory.build_hasher();
        h2.write(input);
        assert_eq!(h1.finish(), h2.finish(), "input {:?}", input);
    }
}

#[test]
fn determinism_whyhash_single_call() {
    let factory = WhyHash::from_entropy(0x0123456789abcdef).unwrap();
    for input in [&b""[..], &b"x"[..], &b"determinism"[..], &b"a longer input, well over eight bytes"[..]] {
        let mut h1 = factory.build_hasher();
        h1.write(input);
        let mut h2 = factory.build_hasher();
        h2.write(input);
        assert_eq!(h1.finish2(), h2.finish2(), "input {:?}", input);
    }
}

#[test]
fn chunk_boundary_independence_for_full_chunks() {
    // The overlapping policy re-reads only within one call, so splitting a
    // message at an 8-byte boundary does not change the digest.
    let bytes: Vec<u8> = (0..32u32).map(|i| (i * 23 + 5) as u8).collect();
    let factory = BitTwidHash::new_with_iv([1, 2]);
    let mut whole = factory.build_hasher();
    whole.write(&bytes);
    let mut split = factory.build_hasher();
    split.write(&bytes[..8]);
    split.write(&bytes[8..]);
    assert_eq!(whole.finish(), split.finish());
}

#[test]
fn secret_balance_generated_ivs() {
    // Both generated IV words carry a balanced population count.
    for i in 0..2000u64 {
        let iv = bittwidhash::generate_iv(entropy_sample(i));
        for word in iv {
            let ones = word.count_ones();
            assert!((24..=40).contains(&ones), "entropy {} word {:#x}", i, word);
        }
    }
}

#[test]
fn secret_balance_from_entropy() {
    // A sample is accepted as a secret exactly when its population count
    // lies in [24, 40]; the caller resamples until acceptance.
    assert!(WhyHash::from_entropy(0).is_none());
    assert!(WhyHash::from_entropy(u64::MAX).is_none());
    assert!(WhyHash::from_entropy(0xff).is_none());
    assert!(WhyHash::from_entropy(0x0123456789abcdef).is_some());
    for i in 0..2000u64 {
        let e = entropy_sample(i);
        let balanced = (24..=40).contains(&e.count_ones());
        assert_eq!(WhyHash::from_entropy(e).is_some(), balanced, "entropy {:#x}", e);
    }
}

#[test]
fn nonzero_low_byte_whyhash() {
    let factory = WhyHash::new_with_secret(0xabcdef0123456789);
    for i in 0..20000u32 {
        let mut h = factory.build_hasher();
        h.write(format!("{}", i).as_bytes());
        let (_, secondary) = h.finish2();
        assert_ne!(secondary as u8, 0, "input {}", i);
    }
    // Before any write, the secondary digest is the odd constant.
    let (_, secondary) = factory.build_hasher().finish2();
    assert_ne!(secondary as u8, 0);
}

#[test]
fn nonzero_low_byte_dual_extension() {
    let factory = BitTwidHash::new_with_iv([0xdf900294d8f554a5, 0x170865df4b3201fc]);
    let mut guarded = 0u32;
    for i in 0..100000u32 {
        let mut h = factory.build_hasher();
        h.write(&i.to_ne_bytes());
        let primary = h.finish();
        let (p, secondary) = DualDigestExtension::new(h).finish2();
        assert_eq!(p, primary);
        assert_ne!(secondary as u8, 0, "input {}", i);
        if primary as u8 == 0 {
            assert_eq!(secondary, primary + 1);
            guarded += 1;
        } else {
            assert_eq!(secondary, primary);
        }
    }
    // The guard must actually have fired somewhere in 100000 digests.
    assert!(guarded > 0);
}

#[test]
fn no_collisions_million_strings() {
    // One million distinct fixed-width strings, one million distinct
    // digests under one fixed factory.
    let factory = BitTwidHash::new_with_iv([0xdf900294d8f554a5, 0x170865df4b3201fc]);
    let mut seen: HashSet<u64> = HashSet::with_capacity(1_000_000);
    for i in 0..1_000_000u32 {
        let mut h = factory.build_hasher();
        h.write(format!("{:08}", i).as_bytes());
        seen.insert(h.finish());
    }
    assert_eq!(seen.len(), 1_000_000);
}

#[test]
fn no_collisions_million_numbers() {
    let factory = BitTwidHash::new_with_iv([0xdf900294d8f554a5, 0x170865df4b3201fc]);
    let mut seen: HashSet<u64> = HashSet::with_capacity(1_000_000);
    for i in 0..1_000_000i32 {
        let mut h = factory.build_hasher();
        h.write(&i.to_ne_bytes());
        seen.insert(h.finish());
    }
    assert_eq!(seen.len(), 1_000_000);
}

#[test]
fn no_collisions_million_whyhash() {
    let factory = WhyHash::new_with_secret(0x0123456789abcdef);
    let mut seen: HashSet<u64> = HashSet::with_capacity(1_000_000);
    for i in 0..1_000_000i32 {
        let mut h = factory.build_hasher();
        h.write(&i.to_ne_bytes());
        seen.insert(h.finish2().0);
    }
    assert_eq!(seen.len(), 1_000_000);
}

#[test]
fn bucket_balance() {
    // Bucketing a million digests into 1024 buckets stays within a factor
    // of two of the uniform expectation (about 976 per bucket).
    let factory = BitTwidHash::new_with_iv([0xdf900294d8f554a5, 0x170865df4b3201fc]);
    let mut buckets = [0u32; 1024];
    for i in 0..1_000_000i32 {
        let mut h = factory.build_hasher();
        h.write(&i.to_ne_bytes());
        buckets[(h.finish() & 0x3ff) as usize] += 1;
    }
    let min = *buckets.iter().min().unwrap();
    let max = *buckets.iter().max().unwrap();
    assert!(min >= 488, "min bucket {}", min);
    assert!(max <= 1953, "max bucket {}", max);
}

#[test]
fn hasher_keeps_accumulating_after_finish() {
    // Finalization is a pure read: further writes continue from the same
    // running state.
    let factory = BitTwidHash::new_with_iv([3, 4]);
    let mut h = factory.build_hasher();
    h.write(b"first part!!");
    let _ = h.finish();
    h.write(b"second part!");
    let after_read = h.finish();
    let mut j = factory.build_hasher();
    j.write(b"first part!!");
    j.write(b"second part!");
    assert_eq!(after_read, j.finish());
}

#[test]
fn random_factories_differ() {
    // Two independently keyed factories almost surely hash one input to
    // different digests; sample a few factories and require at least one
    // difference, which fails only if entropy keying is broken.
    let mut digests: HashSet<u64> = HashSet::new();
    for _ in 0..8 {
        let factory = BitTwidHash::new();
        let mut h = factory.build_hasher();
        h.write(b"keying check");
        digests.insert(h.finish());
    }
    assert!(digests.len() > 1);
}

#[test]
fn build_hasher_trait_roundtrip() {
    // The factory expansion used across these tests: a secret drawn from
    // the system hasher keys a usable factory.
    let seed = std::hash::RandomState::new().build_hasher().finish();
    let factory = BitTwidHash::new_with_secret(seed);
    let mut h1 = factory.build_hasher();
    let mut h2 = factory.build_hasher();
    h1.write(b"same");
    h2.write(b"same");
    assert_eq!(h1.finish(), h2.finish());
}
