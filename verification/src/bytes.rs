//! Little-endian field extraction and byte-tag trimming.
//!
//! Every multi-byte integer in a FAT boot sector or directory entry is
//! little-endian; [`le16`] and [`le32`] are the mathematical meaning of such a
//! field, and the executable readers are thin wrappers over the `byteorder`
//! crate proved against them. [`le16_bytes`] and [`le32_bytes`] run the other
//! way and back the round-trip laws of the record parsers.

use byteorder::ByteOrder;
use vstd::prelude::*;

verus! {

/// The value of the little-endian 16-bit field at byte offset `off` of `s`.
pub open spec fn le16(s: Seq<u8>, off: int) -> int
    recommends
        0 <= off,
        off + 2 <= s.len(),
{
    s[off] + 0x100 * s[off + 1]
}

/// The value of the little-endian 32-bit field at byte offset `off` of `s`.
pub open spec fn le32(s: Seq<u8>, off: int) -> int
    recommends
        0 <= off,
        off + 4 <= s.len(),
{
    s[off] + 0x100 * s[off + 1] + 0x10000 * s[off + 2] + 0x1000000 * s[off + 3]
}

/// The two bytes that encode `v` little-endian.
pub open spec fn le16_bytes(v: u16) -> Seq<u8> {
    seq![(v % 0x100) as u8, (v / 0x100) as u8]
}

/// The four bytes that encode `v` little-endian.
pub open spec fn le32_bytes(v: u32) -> Seq<u8> {
    seq![
        (v % 0x100) as u8,
        ((v / 0x100) % 0x100) as u8,
        ((v / 0x10000) % 0x100) as u8,
        (v / 0x1000000) as u8,
    ]
}

/// Decoding the two-byte encoding of `v` gives `v` back.
pub proof fn lemma_le16_bytes_round_trip(v: u16)
    ensures
        le16(le16_bytes(v), 0) == v,
{
    assert(v % 0x100 + 0x100 * (v / 0x100) == v) by (bit_vector);
}

/// Decoding the four-byte encoding of `v` gives `v` back.
pub proof fn lemma_le32_bytes_round_trip(v: u32)
    ensures
        le32(le32_bytes(v), 0) == v,
{
    assert(v % 0x100 + 0x100 * ((v / 0x100) % 0x100) + 0x10000 * ((v / 0x10000) % 0x100)
        + 0x1000000 * (v / 0x1000000) == v) by (bit_vector);
}

/// Relies on `byteorder::LittleEndian::read_u16`: it returns the unsigned
/// 16-bit integer held little-endian by the first two bytes of the slice it is
/// given, and panics only when that slice is shorter than two bytes.
#[verifier::external_body]
pub(crate) fn read_u16_at(buf: &[u8], off: usize) -> (r: u16)
    requires
        off + 2 <= buf@.len(),
    ensures
        r == le16(buf@, off as int),
{
    byteorder::LittleEndian::read_u16(&buf[off..])
}

/// Relies on `byteorder::LittleEndian::read_u32`: it returns the unsigned
/// 32-bit integer held little-endian by the first four bytes of the slice it
/// is given, and panics only when that slice is shorter than four bytes.
#[verifier::external_body]
pub(crate) fn read_u32_at(buf: &[u8], off: usize) -> (r: u32)
    requires
        off + 4 <= buf@.len(),
    ensures
        r == le32(buf@, off as int),
{
    byteorder::LittleEndian::read_u32(&buf[off..])
}

/// `s` with its leading ASCII spaces removed.
pub open spec fn drop_leading_spaces(s: Seq<u8>) -> Seq<u8>
    decreases s.len(),
{
    if s.len() > 0 && s[0] == 0x20 {
        drop_leading_spaces(s.skip(1))
    } else {
        s
    }
}

/// `s` with its trailing ASCII spaces removed.
pub open spec fn drop_trailing_spaces(s: Seq<u8>) -> Seq<u8>
    decreases s.len(),
{
    if s.len() > 0 && s[s.len() - 1] == 0x20 {
        drop_trailing_spaces(s.take(s.len() - 1))
    } else {
        s
    }
}

/// `s` with ASCII spaces removed from both ends, as a space-padded FAT name
/// tag is displayed.
pub open spec fn trim_spaces(s: Seq<u8>) -> Seq<u8> {
    drop_trailing_spaces(drop_leading_spaces(s))
}

/// Copies `buf` without its leading and trailing ASCII spaces.
pub fn trim_ascii_spaces(buf: &[u8]) -> (r: Vec<u8>)
    ensures
        r@ == trim_spaces(buf@),
{
    let len = buf.len();
    proof {
        assert(buf@.skip(0) =~= buf@);
    }
    let mut lo: usize = 0;
    while lo < len && buf[lo] == 0x20
        invariant
            lo <= len,
            len == buf@.len(),
            drop_leading_spaces(buf@) == drop_leading_spaces(buf@.skip(lo as int)),
        decreases len - lo,
    {
        proof {
            assert(buf@.skip(lo as int).skip(1) =~= buf@.skip(lo as int + 1));
        }
        lo = lo + 1;
    }
    proof {
        assert(drop_leading_spaces(buf@.skip(lo as int)) =~= buf@.skip(lo as int));
        assert(buf@.skip(lo as int) =~= buf@.subrange(lo as int, len as int));
    }
    let mut hi: usize = len;
    while hi > lo && buf[hi - 1] == 0x20
        invariant
            lo <= hi <= len,
            len == buf@.len(),
            drop_trailing_spaces(buf@.subrange(lo as int, len as int)) == drop_trailing_spaces(
                buf@.subrange(lo as int, hi as int),
            ),
        decreases hi,
    {
        proof {
            assert(buf@.subrange(lo as int, hi as int).take(hi - lo - 1) =~= buf@.subrange(
                lo as int,
                hi as int - 1,
            ));
        }
        hi = hi - 1;
    }
    proof {
        assert(drop_trailing_spaces(buf@.subrange(lo as int, hi as int)) =~= buf@.subrange(
            lo as int,
            hi as int,
        ));
    }
    vstd::slice::slice_to_vec(vstd::slice::slice_subrange(buf, lo, hi))
}

} // verus!
