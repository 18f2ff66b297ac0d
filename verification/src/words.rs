//! Packing of input bytes into machine words.
//!
//! Both hashers consume their input as 64-bit words. Bytes are packed
//! little-endian: the byte at the lowest position lands in the lowest bits.

use vstd::prelude::*;

verus! {

/// The 64-bit word packed from eight bytes, little-endian.
pub open spec fn le64(s: Seq<u8>) -> u64
    recommends
        s.len() == 8,
{
    (s[0] as u64) | ((s[1] as u64) << 8u64) | ((s[2] as u64) << 16u64) | ((s[3] as u64) << 24u64)
        | ((s[4] as u64) << 32u64) | ((s[5] as u64) << 40u64) | ((s[6] as u64) << 48u64) | ((
    s[7] as u64) << 56u64)
}

/// The 32-bit value packed from four bytes, little-endian, widened to `u64`.
pub open spec fn le32(s: Seq<u8>) -> u64
    recommends
        s.len() == 4,
{
    (s[0] as u64) | ((s[1] as u64) << 8u64) | ((s[2] as u64) << 16u64) | ((s[3] as u64) << 24u64)
}

/// The 16-bit value packed from two bytes, little-endian, widened to `u64`.
pub open spec fn le16(s: Seq<u8>) -> u64
    recommends
        s.len() == 2,
{
    (s[0] as u64) | ((s[1] as u64) << 8u64)
}

/// The words of all full 8-byte chunks of `s` from `off` on: one chunk per
/// 8 remaining bytes, a shorter tail left unconsumed.
pub open spec fn full_chunks(s: Seq<u8>, off: int) -> Seq<u64>
    recommends
        0 <= off <= s.len(),
    decreases s.len() - off,
{
    if s.len() - off >= 8 {
        seq![le64(s.subrange(off, off + 8))] + full_chunks(s, off + 8)
    } else {
        Seq::empty()
    }
}

/// The words of the full 8-byte chunks of `s` from `off` on, the final
/// chunk excluded: a chunk is consumed only while more than 8 bytes remain.
pub open spec fn leading_chunks(s: Seq<u8>, off: int) -> Seq<u64>
    recommends
        0 <= off <= s.len(),
    decreases s.len() - off,
{
    if s.len() - off > 8 {
        seq![le64(s.subrange(off, off + 8))] + leading_chunks(s, off + 8)
    } else {
        Seq::empty()
    }
}

/// Load the eight bytes at `off` as one little-endian word.
pub fn load64(bytes: &[u8], off: usize) -> (r: u64)
    requires
        off + 8 <= bytes@.len(),
    ensures
        r == le64(bytes@.subrange(off as int, off as int + 8)),
{
    (bytes[off] as u64) | ((bytes[off + 1] as u64) << 8u64) | ((bytes[off + 2] as u64) << 16u64)
        | ((bytes[off + 3] as u64) << 24u64) | ((bytes[off + 4] as u64) << 32u64) | ((bytes[off
        + 5] as u64) << 40u64) | ((bytes[off + 6] as u64) << 48u64) | ((bytes[off + 7] as u64)
        << 56u64)
}

/// Load the four bytes at `off` as one little-endian 32-bit value.
pub fn load32(bytes: &[u8], off: usize) -> (r: u64)
    requires
        off + 4 <= bytes@.len(),
    ensures
        r == le32(bytes@.subrange(off as int, off as int + 4)),
{
    (bytes[off] as u64) | ((bytes[off + 1] as u64) << 8u64) | ((bytes[off + 2] as u64) << 16u64)
        | ((bytes[off + 3] as u64) << 24u64)
}

/// Load the two bytes at `off` as one little-endian 16-bit value.
pub fn load16(bytes: &[u8], off: usize) -> (r: u64)
    requires
        off + 2 <= bytes@.len(),
    ensures
        r == le16(bytes@.subrange(off as int, off as int + 2)),
{
    (bytes[off] as u64) | ((bytes[off + 1] as u64) << 8u64)
}

} // verus!
