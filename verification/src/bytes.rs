//! Little-endian byte packing and the frame checksum.

use vstd::prelude::*;

verus! {

/// The four little-endian bytes of a 32-bit word, least significant first.
pub open spec fn u32_le_bytes(x: u32) -> Seq<u8> {
    seq![
        (x & 0xff) as u8,
        ((x >> 8) & 0xff) as u8,
        ((x >> 16) & 0xff) as u8,
        ((x >> 24) & 0xff) as u8,
    ]
}

/// The 32-bit word whose little-endian bytes are `b0 b1 b2 b3`.
pub open spec fn u32_from_le(b0: u8, b1: u8, b2: u8, b3: u8) -> u32 {
    (b0 as u32) | ((b1 as u32) << 8) | ((b2 as u32) << 16) | ((b3 as u32) << 24)
}

/// Packing a word into little-endian bytes and reading them back is the identity.
pub proof fn lemma_u32_le_round_trip(x: u32)
    ensures
        u32_from_le(
            u32_le_bytes(x)[0],
            u32_le_bytes(x)[1],
            u32_le_bytes(x)[2],
            u32_le_bytes(x)[3],
        ) == x,
{
    assert(((x & 0xff) as u8 as u32) | (((x >> 8) & 0xff) as u8 as u32) << 8
        | (((x >> 16) & 0xff) as u8 as u32) << 16 | (((x >> 24) & 0xff) as u8 as u32) << 24
        == x) by (bit_vector);
}

/// Splits a 32-bit word into its little-endian bytes, least significant first.
pub fn u32_to_le(x: u32) -> (r: (u8, u8, u8, u8))
    ensures
        seq![r.0, r.1, r.2, r.3] == u32_le_bytes(x),
{
    ((x & 0xff) as u8, ((x >> 8) & 0xff) as u8, ((x >> 16) & 0xff) as u8, ((x >> 24) & 0xff) as u8)
}

/// Reassembles a 32-bit word from its little-endian bytes.
pub fn u32_from_le_parts(b0: u8, b1: u8, b2: u8, b3: u8) -> (r: u32)
    ensures
        r == u32_from_le(b0, b1, b2, b3),
{
    (b0 as u32) | ((b1 as u32) << 8) | ((b2 as u32) << 16) | ((b3 as u32) << 24)
}

/// Exclusive-or of all bytes of `s`; `0` for the empty sequence.
pub open spec fn xor_fold(s: Seq<u8>) -> u8
    decreases s.len(),
{
    if s.len() == 0 {
        0u8
    } else {
        xor_fold(s.drop_last()) ^ s.last()
    }
}

/// Appending a byte folds it onto the checksum of the shorter sequence.
pub proof fn lemma_xor_fold_push(s: Seq<u8>, b: u8)
    ensures
        xor_fold(s.push(b)) == xor_fold(s) ^ b,
{
    assert(s.push(b).drop_last() =~= s);
    assert(s.push(b).last() == b);
}

/// Replacing one byte of `s` changes the fold by the exclusive-or of the old
/// and new byte.
pub proof fn lemma_xor_fold_update(s: Seq<u8>, i: int, b: u8)
    requires
        0 <= i < s.len(),
    ensures
        xor_fold(s.update(i, b)) == xor_fold(s) ^ s[i] ^ b,
    decreases s.len(),
{
    let t = s.update(i, b);
    let a = xor_fold(s.drop_last());
    let l = s.last();
    if i == s.len() - 1 {
        assert(t.drop_last() =~= s.drop_last());
        assert(a ^ b == (a ^ l) ^ l ^ b) by (bit_vector);
    } else {
        assert(t.drop_last() =~= s.drop_last().update(i, b));
        lemma_xor_fold_update(s.drop_last(), i, b);
        assert(t.last() == s.last());
        let c = s[i];
        assert((a ^ c ^ b) ^ l == (a ^ l) ^ c ^ b) by (bit_vector);
    }
}

} // verus!
