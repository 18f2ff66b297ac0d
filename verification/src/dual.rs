//! A second digest for hashers that natively produce only one.
//!
//! The secondary digest's low byte is guaranteed non-zero, so that a zero
//! low byte can be reserved as an empty-slot sentinel in byte-keyed
//! structures. For a hasher exposing only [`Digest::finish`], the secondary
//! digest is derived from the primary one: correlated, not independent — an
//! accepted compromise for hashers without native dual state.

use vstd::prelude::*;

verus! {

/// The non-zero-low-byte guard: a value whose low byte is zero is bumped
/// by one.
pub open spec fn nz_guard(x: u64) -> u64 {
    if x & 0xff == 0 {
        (x + 1) as u64
    } else {
        x
    }
}

/// The guard never returns a value with a zero low byte, and never needs to
/// wrap.
pub proof fn lemma_nz_guard(x: u64)
    ensures
        nz_guard(x) & 0xff != 0,
        x & 0xff == 0 ==> x + 1 <= u64::MAX,
{
    assert(x & 0xff == 0 ==> x + 1 <= u64::MAX && ((x + 1) as u64) & 0xff == 1) by (bit_vector);
}

/// Apply the non-zero-low-byte guard.
pub fn apply_nz_guard(x: u64) -> (r: u64)
    ensures
        r == nz_guard(x),
        r & 0xff != 0,
{
    proof {
        lemma_nz_guard(x);
    }
    if x & 0xff == 0 {
        x + 1
    } else {
        x
    }
}

/// A hasher whose single 64-bit digest is a function of its state.
pub trait Digest: Sized {
    /// The digest the hasher would currently report.
    spec fn digest(&self) -> u64;

    /// Read the digest; the hasher state is not changed.
    fn finish(&self) -> (r: u64)
        ensures
            r == self.digest(),
    ;
}

/// Gives any single-digest hasher a guarded second digest, derived from the
/// primary one.
pub struct DualDigestExtension<H> {
    pub inner: H,
}

impl<H: Digest> DualDigestExtension<H> {
    /// Wrap a hasher.
    pub fn new(inner: H) -> (r: Self)
        ensures
            r.inner == inner,
    {
        DualDigestExtension { inner }
    }

    /// The primary digest, and a secondary digest equal to it up to the
    /// non-zero-low-byte guard.
    pub fn finish2(&self) -> (r: (u64, u64))
        ensures
            r.0 == self.inner.digest(),
            r.1 == nz_guard(r.0),
            r.1 & 0xff != 0,
    {
        let p: u64 = self.inner.finish();
        let s: u64 = apply_nz_guard(p);
        (p, s)
    }
}

} // verus!
