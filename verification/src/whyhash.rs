//! The multiplicative streaming hasher.
//!
//! A four-word state — two running digests and two derived secrets — is
//! updated by a 128-bit multiply-and-fold ("MUM") step per 8-byte chunk,
//! producing two digests from one pass. The second digest's low byte is
//! kept non-zero by the sentinel guard, applied during ingestion.
//!
//! Every call to [`WhyHash::write`] folds the 0-to-7-byte remainder of that
//! call into one mandatory final MUM update; this finalizes the digest, so
//! a message split across several calls hashes as one message only when
//! every call but the last has a length that is a multiple of 8. The whole
//! message in one call is always safe. This preserves the single-shot
//! behaviour exactly and is documented as a required-usage constraint.

use vstd::prelude::*;
use vstd::arithmetic::div_mod::lemma_small_mod;
use crate::bits::{balanced, rotl, rotl64};
use crate::words::{full_chunks, load64};
use crate::seed::generate_secret;
use crate::dual::{apply_nz_guard, nz_guard, Digest};

verus! {

/// The fixed well-mixed odd constant: the initial value of both running
/// digests, and the multiplicand from which the second secret is derived.
pub const WY_INIT: u64 = 0xda942042e4dd58b5;

/// The multiply-and-fold primitive: both operands are perturbed by the
/// secret, widened to 128 bits and multiplied; the high half of the product
/// is folded into the low half by xor.
pub open spec fn mum(data: u64, state: u64, secret: u64) -> u64 {
    let a = (state ^ secret) as u128;
    let b = (data ^ secret) as u128;
    let p = ((a * b) % 0x1_0000_0000_0000_0000_0000_0000_0000_0000int) as u128;
    ((p >> 64u128) as u64) ^ (p as u64)
}

/// The word packed from the 0-to-7-byte remainder of a call: the
/// accumulator is rotated left by 8 and the next byte is or-ed in.
pub open spec fn tail_word(s: Seq<u8>) -> u64
    decreases s.len(),
{
    if s.len() == 0 {
        0u64
    } else {
        rotl(tail_word(s.drop_last()), 8) | (s.last() as u64)
    }
}

/// The words one `write` call folds into each running digest: every full
/// 8-byte chunk, then — always — the packed remainder word.
pub open spec fn wy_words(b: Seq<u8>) -> Seq<u64> {
    let n = b.len() as int;
    full_chunks(b, 0).push(tail_word(b.subrange(n - n % 8, n)))
}

/// One running digest after folding the words of `ws` under `sec`.
pub open spec fn mum_fold(st: u64, sec: u64, ws: Seq<u64>) -> u64
    decreases ws.len(),
{
    if ws.len() == 0 {
        st
    } else {
        mum_fold(mum(ws[0], st, sec), sec, ws.drop_first())
    }
}

/// Folding one more word after a fold extends the fold.
proof fn lemma_mum_fold_push(st: u64, sec: u64, ws: Seq<u64>, w: u64)
    ensures
        mum_fold(st, sec, ws.push(w)) == mum(w, mum_fold(st, sec, ws), sec),
    decreases ws.len(),
{
    if ws.len() == 0 {
        assert(ws.push(w)[0] == w);
        assert(ws.push(w).drop_first() =~= Seq::<u64>::empty());
        assert(mum_fold(st, sec, ws.push(w)) == mum_fold(mum(w, st, sec), sec, ws.push(
            w,
        ).drop_first()));
        assert(mum_fold(mum(w, st, sec), sec, Seq::<u64>::empty()) == mum(w, st, sec));
    } else {
        assert(ws.push(w)[0] == ws[0]);
        assert(ws.push(w).drop_first() =~= ws.drop_first().push(w));
        lemma_mum_fold_push(mum(ws[0], st, sec), sec, ws.drop_first(), w);
        assert(mum_fold(st, sec, ws.push(w)) == mum_fold(mum(ws[0], st, sec), sec, ws.drop_first().push(
            w,
        )));
        assert(mum_fold(st, sec, ws) == mum_fold(mum(ws[0], st, sec), sec, ws.drop_first()));
    }
}

/// The pair of digests of a whole message `b` hashed in one call by a
/// fresh hasher holding the secrets `sec` and `sec2`.
pub open spec fn digest_pair_of(sec: u64, sec2: u64, b: Seq<u8>) -> (u64, u64) {
    (mum_fold(WY_INIT, sec, wy_words(b)), nz_guard(mum_fold(WY_INIT, sec2, wy_words(b))))
}

/// The abstract content of a hasher: the two fixed secrets and the two
/// running digests.
pub struct WhyView {
    pub state: u64,
    pub state2: u64,
    pub secret: u64,
    pub secret2: u64,
}

/// Determinism: a whole message fed as a single call to fresh hashers from
/// factories holding the same secrets yields the same pair of digests.
pub proof fn lemma_whyhash_deterministic(f: WhyView, g: WhyView, b: Seq<u8>)
    requires
        f.secret == g.secret,
        f.secret2 == g.secret2,
    ensures
        digest_pair_of(f.secret, f.secret2, b) == digest_pair_of(g.secret, g.secret2, b),
{
}

/// One multiply-and-fold step.
fn mum_mix(data: u64, state: u64, secret: u64) -> (r: u64)
    ensures
        r == mum(data, state, secret),
{
    let a: u64 = state ^ secret;
    let b: u64 = data ^ secret;
    proof {
        assert((a as u128) * (b as u128) < 0x1_0000_0000_0000_0000_0000_0000_0000_0000int)
            by (nonlinear_arith)
            requires
                a as u128 <= 0xffff_ffff_ffff_ffffu128,
                b as u128 <= 0xffff_ffff_ffff_ffffu128,
        ;
    }
    let p: u128 = (a as u128) * (b as u128);
    proof {
        lemma_small_mod(p as nat, 0x1_0000_0000_0000_0000_0000_0000_0000_0000nat);
    }
    let hi: u64 = #[verifier::truncate] ((p >> 64u128) as u64);
    let lo: u64 = #[verifier::truncate] (p as u64);
    hi ^ lo
}

/// The multiplicative streaming hasher. Doubles as its own factory: a
/// fresh instance with the same secrets is obtained with
/// [`WhyHash::build_hasher`].
pub struct WhyHash {
    state: u64,
    state2: u64,
    secret: u64,
    secret2: u64,
}

impl View for WhyHash {
    type V = WhyView;

    closed spec fn view(&self) -> WhyView {
        WhyView {
            state: self.state,
            state2: self.state2,
            secret: self.secret,
            secret2: self.secret2,
        }
    }
}

impl WhyHash {
    /// The second running digest never carries a zero low byte: it starts
    /// on the odd constant and every write guards it.
    #[verifier::type_invariant]
    closed spec fn wf(self) -> bool {
        self.state2 & 0xff != 0
    }

    /// A hasher keyed by the given entropy value: accepted exactly when the
    /// value is balanced, and the accepted value is the secret. The caller
    /// draws fresh entropy until a sample is accepted.
    pub fn from_entropy(entropy: u64) -> (r: Option<WhyHash>)
        ensures
            r is Some <==> balanced(entropy),
            r is Some ==> r.unwrap()@ == (WhyView {
                state: WY_INIT,
                state2: WY_INIT,
                secret: entropy,
                secret2: mum(WY_INIT, entropy, 0),
            }),
            r is Some ==> balanced(r.unwrap()@.secret),
    {
        match generate_secret(entropy) {
            Some(secret) => Some(WhyHash::new_with_secret(secret)),
            None => None,
        }
    }

    /// A hasher keyed by the given secret, used verbatim and not validated;
    /// the second secret is derived by one multiply-and-fold of the fixed
    /// constant.
    pub fn new_with_secret(secret: u64) -> (h: WhyHash)
        ensures
            h@ == (WhyView {
                state: WY_INIT,
                state2: WY_INIT,
                secret: secret,
                secret2: mum(WY_INIT, secret, 0),
            }),
    {
        let secret2: u64 = mum_mix(WY_INIT, secret, 0);
        proof {
            assert(0xda942042e4dd58b5u64 & 0xff != 0) by (bit_vector);
        }
        WhyHash { state: WY_INIT, state2: WY_INIT, secret, secret2 }
    }

    /// A fresh hasher starting over from this factory's secrets.
    pub fn build_hasher(&self) -> (h: WhyHash)
        ensures
            h@ == (WhyView {
                state: WY_INIT,
                state2: WY_INIT,
                secret: self@.secret,
                secret2: self@.secret2,
            }),
    {
        proof {
            assert(0xda942042e4dd58b5u64 & 0xff != 0) by (bit_vector);
        }
        WhyHash { state: WY_INIT, state2: WY_INIT, secret: self.secret, secret2: self.secret2 }
    }

    /// Ingest bytes: every full 8-byte chunk updates both running digests,
    /// and the packed 0-to-7-byte remainder is always folded in as one
    /// mandatory final update, after which the second digest is guarded.
    pub fn write(&mut self, bytes: &[u8])
        ensures
            final(self)@.secret == old(self)@.secret,
            final(self)@.secret2 == old(self)@.secret2,
            final(self)@.state == mum_fold(old(self)@.state, old(self)@.secret, wy_words(bytes@)),
            final(self)@.state2 == nz_guard(
                mum_fold(old(self)@.state2, old(self)@.secret2, wy_words(bytes@)),
            ),
    {
        proof {
            use_type_invariant(&*self);
        }
        let n: usize = bytes.len();
        let mut st: u64 = self.state;
        let mut st2: u64 = self.state2;
        let sec: u64 = self.secret;
        let sec2: u64 = self.secret2;
        let mut off: usize = 0;
        while n - off >= 8
            invariant
                n == bytes@.len(),
                off <= n,
                off % 8 == 0,
                sec == self@.secret,
                sec2 == self@.secret2,
                mum_fold(st, sec, full_chunks(bytes@, off as int)) == mum_fold(
                    self@.state,
                    sec,
                    full_chunks(bytes@, 0),
                ),
                mum_fold(st2, sec2, full_chunks(bytes@, off as int)) == mum_fold(
                    self@.state2,
                    sec2,
                    full_chunks(bytes@, 0),
                ),
            decreases n - off,
        {
            let ghost ws = full_chunks(bytes@, off as int);
            let w: u64 = load64(bytes, off);
            proof {
                assert(ws[0] == w);
                assert(ws.drop_first() =~= full_chunks(bytes@, off as int + 8));
            }
            st = mum_mix(w, st, sec);
            st2 = mum_mix(w, st2, sec2);
            off = off + 8;
        }
        proof {
            assert(full_chunks(bytes@, off as int) =~= Seq::<u64>::empty());
            assert(n % 8 == n - off);
        }
        let mut acc: u64 = 0;
        let mut j: usize = off;
        while j < n
            invariant
                n == bytes@.len(),
                off <= j <= n,
                acc == tail_word(bytes@.subrange(off as int, j as int)),
            decreases n - j,
        {
            let ghost prefix = bytes@.subrange(off as int, j as int);
            let b: u64 = bytes[j] as u64;
            acc = rotl64(acc, 8) | b;
            proof {
                let ext = bytes@.subrange(off as int, j + 1int);
                assert(ext.drop_last() =~= prefix);
                assert(ext.last() == bytes@[j as int]);
            }
            j = j + 1;
        }
        let w: u64 = acc;
        proof {
            lemma_mum_fold_push(self@.state, sec, full_chunks(bytes@, 0), w);
            lemma_mum_fold_push(self@.state2, sec2, full_chunks(bytes@, 0), w);
        }
        st = mum_mix(w, st, sec);
        st2 = mum_mix(w, st2, sec2);
        st2 = apply_nz_guard(st2);
        self.state = st;
        self.state2 = st2;
    }

    /// Both digests: the primary, and the secondary whose low byte is never
    /// zero. The state is not changed.
    pub fn finish2(&self) -> (r: (u64, u64))
        ensures
            r.0 == self@.state,
            r.1 == self@.state2,
            r.1 & 0xff != 0,
    {
        proof {
            use_type_invariant(self);
        }
        (self.state, self.state2)
    }
}

impl Digest for WhyHash {
    open spec fn digest(&self) -> u64 {
        self@.state
    }

    /// The primary digest is the running state, read directly.
    fn finish(&self) -> (r: u64) {
        self.state
    }
}

} // verus!
