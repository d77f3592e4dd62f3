//! Decoding 32-byte root-directory slots.

use crate::bytes::{le16, le16_bytes, le32, le32_bytes, read_u16_at, read_u32_at};
use crate::bytes::{lemma_le16_bytes_round_trip, lemma_le32_bytes_round_trip};
use crate::error::FatError;
use vstd::prelude::*;

verus! {

/// Attribute bit: the entry is read-only.
pub const ATTR_READ_ONLY: u8 = 0x01;

/// Attribute bit: the entry is hidden.
pub const ATTR_HIDDEN: u8 = 0x02;

/// Attribute bit: the entry belongs to the system.
pub const ATTR_SYSTEM: u8 = 0x04;

/// Attribute bit: the entry is the volume label.
pub const ATTR_VOLUME_LABEL: u8 = 0x08;

/// Attribute bit: the entry is a subdirectory.
pub const ATTR_SUB_DIR: u8 = 0x10;

/// Attribute bit: the entry carries the archive flag.
pub const ATTR_ARCHIVE: u8 = 0x20;

/// The four low attribute bits — read-only, hidden, system, volume label —
/// any of which keeps an entry out of the listing.
pub const ATTR_SKIP_MASK: u8 = 0x0F;

/// One 32-byte directory record, decoded field by field.
///
/// A record is ephemeral: decoded, inspected during one scan step, then
/// dropped. Offsets and widths are spelled out in [`dir_entry_decoded`].
#[derive(Clone, Debug, PartialEq, Eq)]
pub struct DirEntry {
    /// 8-byte space-padded name tag, bytes 0..8.
    pub file_name: Vec<u8>,
    /// 3-byte space-padded extension tag, bytes 8..11.
    pub file_ext: Vec<u8>,
    /// Flag set over the `ATTR_*` bits, byte 11.
    pub attributes: u8,
    /// Unused on FAT12/16, bytes 12..14.
    pub reserved: u16,
    /// Packed creation time, bytes 14..16.
    pub create_time: u16,
    /// Packed creation date, bytes 16..18.
    pub create_date: u16,
    /// Packed last-access date, bytes 18..20.
    pub last_access_date: u16,
    /// Packed last-write time, bytes 22..24.
    pub last_write_time: u16,
    /// Packed last-write date, bytes 24..26.
    pub last_write_date: u16,
    /// First logical cluster, bytes 26..28; never traversed here.
    pub flc: u16,
    /// File size in bytes, bytes 28..32.
    pub file_size: u32,
}

/// `e` holds exactly the field values that the directory-slot bytes `buf`
/// encode.
pub open spec fn dir_entry_decoded(buf: Seq<u8>, e: DirEntry) -> bool
    recommends
        buf.len() >= 32,
{
    &&& e.file_name@ == buf.subrange(0, 8)
    &&& e.file_ext@ == buf.subrange(8, 11)
    &&& e.attributes == buf[11]
    &&& e.reserved == le16(buf, 12)
    &&& e.create_time == le16(buf, 14)
    &&& e.create_date == le16(buf, 16)
    &&& e.last_access_date == le16(buf, 18)
    &&& e.last_write_time == le16(buf, 22)
    &&& e.last_write_date == le16(buf, 24)
    &&& e.flc == le16(buf, 26)
    &&& e.file_size == le32(buf, 28)
}

impl DirEntry {
    /// Decodes one directory slot.
    ///
    /// Succeeds exactly on buffers of at least 32 bytes — a slot is exactly
    /// 32 bytes, and nothing beyond them is read; a shorter buffer is
    /// rejected with a format error. On success every field equals the value
    /// encoded at its fixed offset.
    pub fn parse(buf: &[u8]) -> (r: Result<DirEntry, FatError>)
        ensures
            buf@.len() >= 32 ==> (r matches Ok(e) && dir_entry_decoded(buf@, e)),
            buf@.len() < 32 ==> r == Err::<DirEntry, FatError>(FatError::Format),
    {
        if buf.len() < 32 {
            return Err(FatError::Format);
        }
        Ok(
            DirEntry {
                file_name: vstd::slice::slice_to_vec(vstd::slice::slice_subrange(buf, 0, 8)),
                file_ext: vstd::slice::slice_to_vec(vstd::slice::slice_subrange(buf, 8, 11)),
                attributes: buf[11],
                reserved: read_u16_at(buf, 12),
                create_time: read_u16_at(buf, 14),
                create_date: read_u16_at(buf, 16),
                last_access_date: read_u16_at(buf, 18),
                last_write_time: read_u16_at(buf, 22),
                last_write_date: read_u16_at(buf, 24),
                flc: read_u16_at(buf, 26),
                file_size: read_u32_at(buf, 28),
            },
        )
    }
}

/// Byte `i` of the directory slot that encodes `e`'s field values; the two
/// bytes no field covers are zero.
pub open spec fn dir_entry_byte(e: DirEntry, i: int) -> u8 {
    if 0 <= i < 8 {
        e.file_name@[i]
    } else if 8 <= i < 11 {
        e.file_ext@[i - 8]
    } else if i == 11 {
        e.attributes
    } else if 12 <= i < 14 {
        le16_bytes(e.reserved)[i - 12]
    } else if 14 <= i < 16 {
        le16_bytes(e.create_time)[i - 14]
    } else if 16 <= i < 18 {
        le16_bytes(e.create_date)[i - 16]
    } else if 18 <= i < 20 {
        le16_bytes(e.last_access_date)[i - 18]
    } else if 22 <= i < 24 {
        le16_bytes(e.last_write_time)[i - 22]
    } else if 24 <= i < 26 {
        le16_bytes(e.last_write_date)[i - 24]
    } else if 26 <= i < 28 {
        le16_bytes(e.flc)[i - 26]
    } else if 28 <= i < 32 {
        le32_bytes(e.file_size)[i - 28]
    } else {
        0
    }
}

/// The 32-byte directory slot synthesised from `e`'s field values.
pub open spec fn encode_dir_entry(e: DirEntry) -> Seq<u8> {
    Seq::new(32, |i: int| dir_entry_byte(e, i))
}

/// Round trip: a directory slot synthesised from known field values decodes
/// back to exactly those values, so [`DirEntry::parse`] recovers them.
pub proof fn lemma_dir_entry_round_trip(e: DirEntry)
    requires
        e.file_name@.len() == 8,
        e.file_ext@.len() == 3,
    ensures
        encode_dir_entry(e).len() == 32,
        dir_entry_decoded(encode_dir_entry(e), e),
{
    let buf = encode_dir_entry(e);
    assert(buf.subrange(0, 8) =~= e.file_name@);
    assert(buf.subrange(8, 11) =~= e.file_ext@);
    lemma_le16_bytes_round_trip(e.reserved);
    lemma_le16_bytes_round_trip(e.create_time);
    lemma_le16_bytes_round_trip(e.create_date);
    lemma_le16_bytes_round_trip(e.last_access_date);
    lemma_le16_bytes_round_trip(e.last_write_time);
    lemma_le16_bytes_round_trip(e.last_write_date);
    lemma_le16_bytes_round_trip(e.flc);
    lemma_le32_bytes_round_trip(e.file_size);
}

} // verus!
