//! Decoding the 512-byte boot sector / BIOS Parameter Block.

use crate::bytes::{le16, le16_bytes, le32, le32_bytes, read_u16_at, read_u32_at};
use crate::bytes::{lemma_le16_bytes_round_trip, lemma_le32_bytes_round_trip};
use crate::error::FatError;
use vstd::prelude::*;

verus! {

/// The geometry and identification record held by a FAT12/16 boot sector.
///
/// Every multi-byte field is little-endian and sits at a fixed byte offset of
/// the standard BPB layout; the offsets are spelled out in [`boot_decoded`].
/// The record is decoded once per image and never written back.
#[derive(Clone, Debug, PartialEq, Eq)]
pub struct DiskInfo {
    /// 8-byte OS name tag, bytes 3..11.
    pub os_name: Vec<u8>,
    pub bytes_per_sector: u16,
    pub sectors_per_cluster: u8,
    pub reserved_sectors: u16,
    /// Count of FAT copies.
    pub fats: u8,
    /// Capacity of the root directory table, in 32-byte slots.
    pub root_dir_entries: u16,
    pub total_sectors: u16,
    pub sectors_per_fat: u16,
    pub sectors_per_track: u16,
    pub heads: u16,
    pub boot_signature: u8,
    pub volume_id: u32,
    /// 11-byte volume label tag, bytes 43..54.
    pub volume_label: Vec<u8>,
    /// Filesystem-type tag, bytes 54..62: the standard 8-byte width, so it
    /// overlaps no neighbouring field.
    pub fs_type: Vec<u8>,
}

/// `d` holds exactly the field values that the boot-sector bytes `buf` encode.
pub open spec fn boot_decoded(buf: Seq<u8>, d: DiskInfo) -> bool
    recommends
        buf.len() >= 512,
{
    &&& d.os_name@ == buf.subrange(3, 11)
    &&& d.bytes_per_sector == le16(buf, 11)
    &&& d.sectors_per_cluster == buf[13]
    &&& d.reserved_sectors == le16(buf, 14)
    &&& d.fats == buf[16]
    &&& d.root_dir_entries == le16(buf, 17)
    &&& d.total_sectors == le16(buf, 19)
    &&& d.sectors_per_fat == le16(buf, 22)
    &&& d.sectors_per_track == le16(buf, 24)
    &&& d.heads == le16(buf, 26)
    &&& d.boot_signature == buf[38]
    &&& d.volume_id == le32(buf, 39)
    &&& d.volume_label@ == buf.subrange(43, 54)
    &&& d.fs_type@ == buf.subrange(54, 62)
}

impl DiskInfo {
    /// Decodes a boot-sector buffer.
    ///
    /// Succeeds exactly on buffers that hold the full 512-byte boot sector;
    /// a shorter buffer is rejected with a format error and no byte of it is
    /// read. On success every field equals the value encoded at its fixed
    /// offset.
    pub fn parse(buf: &[u8]) -> (r: Result<DiskInfo, FatError>)
        ensures
            buf@.len() >= 512 ==> (r matches Ok(d) && boot_decoded(buf@, d)),
            buf@.len() < 512 ==> r == Err::<DiskInfo, FatError>(FatError::Format),
    {
        if buf.len() < 512 {
            return Err(FatError::Format);
        }
        Ok(
            DiskInfo {
                os_name: vstd::slice::slice_to_vec(vstd::slice::slice_subrange(buf, 3, 11)),
                bytes_per_sector: read_u16_at(buf, 11),
                sectors_per_cluster: buf[13],
                reserved_sectors: read_u16_at(buf, 14),
                fats: buf[16],
                root_dir_entries: read_u16_at(buf, 17),
                total_sectors: read_u16_at(buf, 19),
                sectors_per_fat: read_u16_at(buf, 22),
                sectors_per_track: read_u16_at(buf, 24),
                heads: read_u16_at(buf, 26),
                boot_signature: buf[38],
                volume_id: read_u32_at(buf, 39),
                volume_label: vstd::slice::slice_to_vec(
                    vstd::slice::slice_subrange(buf, 43, 54),
                ),
                fs_type: vstd::slice::slice_to_vec(vstd::slice::slice_subrange(buf, 54, 62)),
            },
        )
    }
}

/// Byte `i` of the boot sector that encodes `d`'s field values; bytes outside
/// every field are zero.
pub open spec fn boot_byte(d: DiskInfo, i: int) -> u8 {
    if 3 <= i < 11 {
        d.os_name@[i - 3]
    } else if 11 <= i < 13 {
        le16_bytes(d.bytes_per_sector)[i - 11]
    } else if i == 13 {
        d.sectors_per_cluster
    } else if 14 <= i < 16 {
        le16_bytes(d.reserved_sectors)[i - 14]
    } else if i == 16 {
        d.fats
    } else if 17 <= i < 19 {
        le16_bytes(d.root_dir_entries)[i - 17]
    } else if 19 <= i < 21 {
        le16_bytes(d.total_sectors)[i - 19]
    } else if 22 <= i < 24 {
        le16_bytes(d.sectors_per_fat)[i - 22]
    } else if 24 <= i < 26 {
        le16_bytes(d.sectors_per_track)[i - 24]
    } else if 26 <= i < 28 {
        le16_bytes(d.heads)[i - 26]
    } else if i == 38 {
        d.boot_signature
    } else if 39 <= i < 43 {
        le32_bytes(d.volume_id)[i - 39]
    } else if 43 <= i < 54 {
        d.volume_label@[i - 43]
    } else if 54 <= i < 62 {
        d.fs_type@[i - 54]
    } else {
        0
    }
}

/// The 512-byte boot sector synthesised from `d`'s field values.
pub open spec fn encode_boot_sector(d: DiskInfo) -> Seq<u8> {
    Seq::new(512, |i: int| boot_byte(d, i))
}

/// Round trip: a boot sector synthesised from known field values decodes back
/// to exactly those values, so [`DiskInfo::parse`] recovers them.
pub proof fn lemma_boot_sector_round_trip(d: DiskInfo)
    requires
        d.os_name@.len() == 8,
        d.volume_label@.len() == 11,
        d.fs_type@.len() == 8,
    ensures
        encode_boot_sector(d).len() == 512,
        boot_decoded(encode_boot_sector(d), d),
{
    let buf = encode_boot_sector(d);
    assert(buf.subrange(3, 11) =~= d.os_name@);
    assert(buf.subrange(43, 54) =~= d.volume_label@);
    assert(buf.subrange(54, 62) =~= d.fs_type@);
    lemma_le16_bytes_round_trip(d.bytes_per_sector);
    lemma_le16_bytes_round_trip(d.reserved_sectors);
    lemma_le16_bytes_round_trip(d.root_dir_entries);
    lemma_le16_bytes_round_trip(d.total_sectors);
    lemma_le16_bytes_round_trip(d.sectors_per_fat);
    lemma_le16_bytes_round_trip(d.sectors_per_track);
    lemma_le16_bytes_round_trip(d.heads);
    lemma_le32_bytes_round_trip(d.volume_id);
}

} // verus!
