//! A family of non-cryptographic, keyed 64-bit streaming hash functions.
//!
//! Two hashers are provided: [`BitTwidHash`], a rotate/xor hasher over a
//! two-word state, and [`WhyHash`], a multiplicative hasher that produces two
//! digests in one pass, the second with a guaranteed non-zero low byte.
//! Internal secrets are derived from caller-supplied entropy under a
//! bit-population balance constraint.

mod bits;
mod words;
mod seed;
mod dual;
mod bittwid;
mod whyhash;

pub use bits::{balanced, popcnt, popcount, rotl, wadd};
pub use words::{le16, le32, le64};
pub use seed::{generate_iv, generate_secret, iv_of, lemma_generated_iv_balance, rnd_xsr256};
pub use dual::{Digest, DualDigestExtension};
pub use bittwid::{
    BitTwidHash, lemma_bittwid_deterministic, lemma_empty_input, lemma_policies_agree_aligned,
    lemma_single_chunk,
};
pub use whyhash::{lemma_whyhash_deterministic, WhyHash};
