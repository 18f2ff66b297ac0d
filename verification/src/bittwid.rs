//! The rotate/xor streaming hasher.
//!
//! A two-word running state is updated by an additive/rotate gather step per
//! consumed 8-byte word and finalized by a fixed rotate-xor-add mixing
//! round. The production ingestion policy ([`BitTwidHash::write`]) re-reads
//! the final 8 bytes of a long input instead of branching on a tail: two
//! inputs differing only in a byte covered twice can receive correlated
//! state updates, a deliberate speed/overlap tradeoff. A strictly
//! non-overlapping policy ([`BitTwidHash::_write_v1`]) is kept as a
//! documented alternative for differential testing only.

use vstd::prelude::*;
use crate::bits::{rotl, rotl64, wadd};
use crate::words::{full_chunks, le16, le32, le64, leading_chunks, load16, load32, load64};
use crate::seed::{generate_iv, iv_of};
use crate::dual::Digest;

verus! {

/// One gather step: fold one 64-bit word into the running state.
pub open spec fn gather1(s: (u64, u64), w: u64) -> (u64, u64) {
    (wadd(s.0, w), rotl(wadd(s.0, s.1), 19))
}

/// The state after gathering the words of `ws` in order, starting from `s`.
pub open spec fn gather_fold(s: (u64, u64), ws: Seq<u64>) -> (u64, u64)
    decreases ws.len(),
{
    if ws.len() == 0 {
        s
    } else {
        gather_fold(gather1(s, ws[0]), ws.drop_first())
    }
}

/// The words gathered by the overlapping ingestion policy: all full 8-byte
/// chunks except the last, then the final 8 bytes of the whole input again;
/// shorter inputs are packed into a single word with overlapping halves.
pub open spec fn words_v2(b: Seq<u8>) -> Seq<u64> {
    let n = b.len() as int;
    if n >= 8 {
        leading_chunks(b, 0).push(le64(b.subrange(n - 8, n)))
    } else if n >= 4 {
        seq![le32(b.subrange(0, 4)) | (le32(b.subrange(n - 4, n)) << 32u64)]
    } else if n >= 2 {
        seq![le16(b.subrange(0, 2)) | (le16(b.subrange(n - 2, n)) << 16u64)]
    } else if n == 1 {
        seq![b[0] as u64]
    } else {
        Seq::empty()
    }
}

/// The word packed from a 1-to-7-byte remainder by the non-overlapping
/// policy: up to four bytes in the low half, up to two more at bit 32, a
/// final odd byte at bit 48.
pub open spec fn rem_word_v1(r: Seq<u8>) -> u64
    recommends
        1 <= r.len() <= 7,
{
    let n = r.len() as int;
    let lo = if n >= 4 {
        le32(r.subrange(0, 4))
    } else {
        0u64
    };
    let mid_off = if n >= 4 {
        4int
    } else {
        0int
    };
    let mid = if n % 4 >= 2 {
        le16(r.subrange(mid_off, mid_off + 2)) << 32u64
    } else {
        0u64
    };
    let hi = if n % 2 == 1 {
        (r[n - 1] as u64) << 48u64
    } else {
        0u64
    };
    lo | mid | hi
}

/// The words gathered by the non-overlapping ingestion policy: every full
/// 8-byte chunk, then one packed remainder word if any bytes are left.
pub open spec fn words_v1(b: Seq<u8>) -> Seq<u64> {
    let n = b.len() as int;
    if n % 8 == 0 {
        full_chunks(b, 0)
    } else {
        full_chunks(b, 0).push(rem_word_v1(b.subrange(n - n % 8, n)))
    }
}

/// The finalization mixing round, a pure function of the final state.
pub open spec fn finalize(s: (u64, u64)) -> u64 {
    let y = s.1 ^ s.0;
    let x = rotl(s.0, 24) ^ y ^ (y << 16u64);
    let z = rotl(y, 37);
    wadd(rotl(wadd(x, z), 17), x)
}

/// The digest of a whole message `b` hashed in one call by a fresh hasher
/// started on the initialization pair `iv`.
pub open spec fn digest_of(iv: (u64, u64), b: Seq<u8>) -> u64 {
    finalize(gather_fold(iv, words_v2(b)))
}

/// Gathering one more word after a fold extends the fold.
proof fn lemma_gather_fold_push(s: (u64, u64), ws: Seq<u64>, w: u64)
    ensures
        gather_fold(s, ws.push(w)) == gather1(gather_fold(s, ws), w),
    decreases ws.len(),
{
    if ws.len() == 0 {
        assert(ws.push(w)[0] == w);
        assert(ws.push(w).drop_first() =~= Seq::<u64>::empty());
        assert(gather_fold(s, ws.push(w)) == gather_fold(gather1(s, w), ws.push(w).drop_first()));
        assert(gather_fold(gather1(s, w), Seq::<u64>::empty()) == gather1(s, w));
    } else {
        assert(ws.push(w)[0] == ws[0]);
        assert(ws.push(w).drop_first() =~= ws.drop_first().push(w));
        lemma_gather_fold_push(gather1(s, ws[0]), ws.drop_first(), w);
        assert(gather_fold(s, ws.push(w)) == gather_fold(gather1(s, ws[0]), ws.drop_first().push(
            w,
        )));
        assert(gather_fold(s, ws) == gather_fold(gather1(s, ws[0]), ws.drop_first()));
    }
}

/// Folding a one-word sequence is one gather step.
proof fn lemma_gather_fold_single(s: (u64, u64), ws: Seq<u64>, w: u64)
    requires
        ws == seq![w],
    ensures
        gather_fold(s, ws) == gather1(s, w),
{
    assert(ws[0] == w);
    assert(ws.drop_first() =~= Seq::<u64>::empty());
    assert(gather_fold(s, ws) == gather_fold(gather1(s, w), ws.drop_first()));
    assert(gather_fold(gather1(s, w), Seq::<u64>::empty()) == gather1(s, w));
}

/// The abstract content of a hasher: the fixed initialization pair it was
/// built with and its current running state.
pub struct BitTwidView {
    pub init: (u64, u64),
    pub state: (u64, u64),
}

/// Determinism: a whole message fed as a single call to fresh hashers from
/// factories holding the same initialization pair yields the same digest.
pub proof fn lemma_bittwid_deterministic(f: BitTwidView, g: BitTwidView, b: Seq<u8>)
    requires
        f.init == g.init,
    ensures
        digest_of(f.init, b) == digest_of(g.init, b),
{
}

/// A zero-length input causes no gather step: its digest is the
/// finalization of the initialization pair itself.
pub proof fn lemma_empty_input(iv: (u64, u64))
    ensures
        digest_of(iv, Seq::<u8>::empty()) == finalize(iv),
{
    assert(words_v2(Seq::<u8>::empty()) =~= Seq::<u64>::empty());
}

/// An input of exactly 8 bytes is consumed by one gather of its packed
/// word, followed by finalization.
pub proof fn lemma_single_chunk(iv: (u64, u64), b: Seq<u8>)
    requires
        b.len() == 8,
    ensures
        digest_of(iv, b) == finalize(gather1(iv, le64(b))),
{
    assert(b.subrange(0, 8) =~= b);
    assert(leading_chunks(b, 0) =~= Seq::<u64>::empty());
    assert(words_v2(b) == Seq::<u64>::empty().push(le64(b)));
    lemma_gather_fold_single(iv, words_v2(b), le64(b));
}

/// From `off` on, the full chunks are the leading chunks plus the final
/// aligned chunk, when the remaining length is a positive multiple of 8.
proof fn lemma_chunks_aligned(b: Seq<u8>, off: int)
    requires
        0 <= off <= b.len() - 8,
        (b.len() - off) % 8 == 0,
    ensures
        full_chunks(b, off) == leading_chunks(b, off).push(
            le64(b.subrange(b.len() - 8, b.len() as int)),
        ),
    decreases b.len() - off,
{
    let last = le64(b.subrange(b.len() - 8, b.len() as int));
    if b.len() - off == 8 {
        assert(full_chunks(b, off + 8) =~= Seq::<u64>::empty());
        assert(seq![last] + Seq::<u64>::empty() =~= Seq::<u64>::empty().push(last));
    } else {
        lemma_chunks_aligned(b, off + 8);
        let w = le64(b.subrange(off, off + 8));
        assert(seq![w] + leading_chunks(b, off + 8).push(last) =~= (seq![w] + leading_chunks(
            b,
            off + 8,
        )).push(last));
    }
}

/// On inputs whose length is a positive multiple of 8, the two ingestion
/// policies gather the same words: the overlapping re-read of the final 8
/// bytes coincides with the final aligned chunk.
pub proof fn lemma_policies_agree_aligned(b: Seq<u8>)
    requires
        b.len() >= 8,
        b.len() % 8 == 0,
    ensures
        words_v1(b) == words_v2(b),
{
    lemma_chunks_aligned(b, 0);
}

/// The rotate/xor streaming hasher. Doubles as its own factory: a fresh
/// instance starting from the same initialization pair is obtained with
/// [`BitTwidHash::build_hasher`].
pub struct BitTwidHash {
    init: [u64; 2],
    state: [u64; 2],
}

impl View for BitTwidHash {
    type V = BitTwidView;

    closed spec fn view(&self) -> BitTwidView {
        BitTwidView { init: (self.init[0], self.init[1]), state: (self.state[0], self.state[1]) }
    }
}

impl BitTwidHash {
    /// A hasher keyed from system entropy.
    ///
    /// The returned factory starts fresh, with an initialization pair
    /// derived from some entropy value by [`generate_iv`].
    pub fn new() -> (h: BitTwidHash)
        ensures
            h@.state == h@.init,
            exists|e: u64| h@.init == iv_of(e),
    {
        let seed: u64 = random_seed();
        let h = BitTwidHash::new_with_secret(seed);
        proof {
            assert(h@.init == iv_of(seed));
        }
        h
    }

    /// A hasher using the given initialization pair verbatim: deterministic,
    /// for testing or entropy-less environments; weaker than entropy-derived
    /// keying.
    pub fn new_with_iv(init: [u64; 2]) -> (h: BitTwidHash)
        ensures
            h@.init == (init[0], init[1]),
            h@.state == h@.init,
    {
        BitTwidHash { init, state: init }
    }

    /// A hasher whose initialization pair is derived from the given entropy
    /// value by the seed generator.
    pub fn new_with_secret(secret: u64) -> (h: BitTwidHash)
        ensures
            h@.init == iv_of(secret),
            h@.state == h@.init,
    {
        let iv: [u64; 2] = generate_iv(secret);
        BitTwidHash { init: iv, state: iv }
    }

    /// A fresh hasher starting from this factory's initialization pair.
    pub fn build_hasher(&self) -> (h: BitTwidHash)
        ensures
            h@.init == self@.init,
            h@.state == self@.init,
    {
        BitTwidHash { init: self.init, state: self.init }
    }

    /// Ingest bytes with the production (overlapping) policy.
    pub fn write(&mut self, bytes: &[u8])
        ensures
            final(self)@.init == old(self)@.init,
            final(self)@.state == gather_fold(old(self)@.state, words_v2(bytes@)),
    {
        self._write_v2(bytes)
    }

    /// The digest of the current state; the state is not changed, and
    /// further writes continue accumulating.
    ///
    /// Equals [`Digest::finish`]; kept as an inherent method so that a
    /// hasher can be read without the trait in scope.
    pub fn finish(&self) -> (r: u64)
        ensures
            r == finalize(self@.state),
    {
        let s0: u64 = self.state[0];
        let s1: u64 = self.state[1];
        let y: u64 = s1 ^ s0;
        let x: u64 = rotl64(s0, 24) ^ y ^ (y << 16u64);
        let z: u64 = rotl64(y, 37);
        rotl64(x.wrapping_add(z), 17).wrapping_add(x)
    }

    /// One gather step.
    fn gather(&mut self, cleardat: u64)
        ensures
            final(self)@.init == old(self)@.init,
            final(self)@.state == gather1(old(self)@.state, cleardat),
    {
        let s0: u64 = self.state[0];
        let s1: u64 = self.state[1];
        self.state = [s0.wrapping_add(cleardat), rotl64(s0.wrapping_add(s1), 19)];
    }

    /// The non-overlapping ingestion policy: reads the largest possible
    /// units from the remaining bytes. Retained for differential testing
    /// only; not compatible with [`BitTwidHash::write`].
    pub fn _write_v1(&mut self, bytes: &[u8])
        ensures
            final(self)@.init == old(self)@.init,
            final(self)@.state == gather_fold(old(self)@.state, words_v1(bytes@)),
    {
        let n: usize = bytes.len();
        let mut off: usize = 0;
        while n - off >= 8
            invariant
                n == bytes@.len(),
                off <= n,
                off % 8 == 0,
                self@.init == old(self)@.init,
                gather_fold(self@.state, full_chunks(bytes@, off as int)) == gather_fold(
                    old(self)@.state,
                    full_chunks(bytes@, 0),
                ),
            decreases n - off,
        {
            let ghost ws = full_chunks(bytes@, off as int);
            let w: u64 = load64(bytes, off);
            self.gather(w);
            proof {
                assert(ws[0] == w);
                assert(ws.drop_first() =~= full_chunks(bytes@, off as int + 8));
            }
            off = off + 8;
        }
        proof {
            assert(full_chunks(bytes@, off as int) =~= Seq::<u64>::empty());
            assert(n % 8 == n - off);
        }
        if n - off > 0 {
            let ghost rem = bytes@.subrange(off as int, n as int);
            let mut o2: usize = off;
            let r1: usize = n - o2;
            proof {
                assert((r1 & 4 != 0) == (r1 >= 4)) by (bit_vector)
                    requires
                        r1 < 8,
                ;
                if r1 >= 4 {
                    assert(rem.subrange(0, 4) =~= bytes@.subrange(off as int, off as int + 4));
                }
            }
            let lo: u64 = if r1 & 4 != 0 {
                let v: u64 = load32(bytes, o2);
                o2 = o2 + 4;
                v
            } else {
                0
            };
            let r2: usize = n - o2;
            proof {
                assert((r2 & 2 != 0) == (r2 >= 2)) by (bit_vector)
                    requires
                        r2 < 4,
                ;
            }
            let hi2: u64 = if r2 & 2 != 0 {
                let v: u64 = load16(bytes, o2) << 32u64;
                o2 = o2 + 2;
                v
            } else {
                0
            };
            let r3: usize = n - o2;
            proof {
                assert((r3 & 1 != 0) == (r3 % 2 == 1)) by (bit_vector);
            }
            let hi3: u64 = if r3 & 1 != 0 {
                ((bytes[o2] as u64) << 48u64)
            } else {
                0
            };
            let tmp: u64 = lo | hi2 | hi3;
            proof {
                let r = rem.len() as int;
                if r % 4 >= 2 {
                    let mo = if r >= 4 { 4int } else { 0int };
                    assert(rem.subrange(mo, mo + 2) =~= bytes@.subrange(
                        off as int + mo,
                        off as int + mo + 2,
                    ));
                }
                assert(tmp == rem_word_v1(rem));
                lemma_gather_fold_push(old(self)@.state, full_chunks(bytes@, 0), tmp);
            }
            self.gather(tmp);
        }
    }

    /// The production (overlapping) ingestion policy: full chunks except the
    /// last, then the final 8 bytes again; short inputs packed into one word
    /// with overlapping halves.
    pub fn _write_v2(&mut self, bytes: &[u8])
        ensures
            final(self)@.init == old(self)@.init,
            final(self)@.state == gather_fold(old(self)@.state, words_v2(bytes@)),
    {
        let n: usize = bytes.len();
        if n >= 8 {
            let mut off: usize = 0;
            while n - off > 8
                invariant
                    n == bytes@.len(),
                    off <= n,
                    8 <= n,
                    self@.init == old(self)@.init,
                    gather_fold(self@.state, leading_chunks(bytes@, off as int)) == gather_fold(
                        old(self)@.state,
                        leading_chunks(bytes@, 0),
                    ),
                decreases n - off,
            {
                let ghost ws = leading_chunks(bytes@, off as int);
                let w: u64 = load64(bytes, off);
                self.gather(w);
                proof {
                    assert(ws[0] == w);
                    assert(ws.drop_first() =~= leading_chunks(bytes@, off as int + 8));
                }
                off = off + 8;
            }
            proof {
                assert(leading_chunks(bytes@, off as int) =~= Seq::<u64>::empty());
            }
            let w: u64 = load64(bytes, n - 8);
            proof {
                lemma_gather_fold_push(old(self)@.state, leading_chunks(bytes@, 0), w);
            }
            self.gather(w);
        } else if n >= 4 {
            let lo: u64 = load32(bytes, 0);
            let hi: u64 = load32(bytes, n - 4);
            let w: u64 = lo | (hi << 32u64);
            let ghost st0 = self@.state;
            self.gather(w);
            proof {
                lemma_gather_fold_single(st0, words_v2(bytes@), w);
            }
        } else if n >= 2 {
            let lo: u64 = load16(bytes, 0);
            let hi: u64 = load16(bytes, n - 2);
            let w: u64 = lo | (hi << 16u64);
            let ghost st0 = self@.state;
            self.gather(w);
            proof {
                lemma_gather_fold_single(st0, words_v2(bytes@), w);
            }
        } else if n >= 1 {
            let w: u64 = bytes[0] as u64;
            let ghost st0 = self@.state;
            self.gather(w);
            proof {
                lemma_gather_fold_single(st0, words_v2(bytes@), w);
            }
        }
    }
}

impl Digest for BitTwidHash {
    open spec fn digest(&self) -> u64 {
        finalize(self@.state)
    }

    fn finish(&self) -> (r: u64) {
        self.finish()
    }
}

/// Relies on std::hash::RandomState: each fresh state hashes with a
/// process-random key, so the digest of nothing serves as one 64-bit
/// entropy sample. Nothing is assumed of the value.
#[verifier::external_body]
fn random_seed() -> u64 {
    let rs = std::hash::RandomState::new();
    let h = std::hash::BuildHasher::build_hasher(&rs);
    std::hash::Hasher::finish(&h)
}

} // verus!
