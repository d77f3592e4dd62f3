//! Scanning a root-directory region into a listing of its live entries.
//!
//! The scan walks the fixed-size slot table at the root directory's computed
//! byte offset: it stops at the end-of-directory sentinel, skips slots whose
//! low attribute bits are set, and turns every other slot into one
//! [`Listing`]. [`scan_from`] is the mathematical model of that walk;
//! [`scan_root_dir`] is proved to follow it slot by slot.

use crate::boot_sector::DiskInfo;
use crate::bytes::{le16, trim_ascii_spaces, trim_spaces};
use crate::datetime::{decode_datetime, spec_timestamp, valid_packed_datetime, Timestamp};
use crate::dir_entry::{
    DirEntry, ATTR_ARCHIVE, ATTR_HIDDEN, ATTR_SKIP_MASK, ATTR_SUB_DIR, ATTR_VOLUME_LABEL,
};
use crate::error::FatError;
use vstd::prelude::*;

verus! {

/// How a slot's attribute byte decides whether the entry is a directory.
///
/// The literal test is `(attributes | ATTR_SUB_DIR) == 0`, which a nonzero
/// attribute byte can never satisfy, so under it essentially every entry
/// prints as a file; the corrected reading tests the subdirectory bit
/// itself. Which of the two is intended is an open design decision, so the
/// scan takes the policy as an argument instead of settling it, and the
/// literal test stays the default.
#[derive(Clone, Copy, Debug, PartialEq, Eq, Structural)]
pub enum DirPolicy {
    /// `(attributes | ATTR_SUB_DIR) == 0`: the literal, almost-never-true test.
    Literal,
    /// `(attributes & ATTR_SUB_DIR) != 0`: the subdirectory bit decides.
    Corrected,
}

/// What `policy` makes of an attribute byte.
pub open spec fn spec_is_dir(attributes: u8, policy: DirPolicy) -> bool {
    match policy {
        DirPolicy::Literal => attributes | ATTR_SUB_DIR == 0,
        DirPolicy::Corrected => attributes & ATTR_SUB_DIR != 0,
    }
}

/// Whether `policy` reads `attributes` as a directory.
pub fn is_directory(attributes: u8, policy: DirPolicy) -> (r: bool)
    ensures
        r == spec_is_dir(attributes, policy),
{
    match policy {
        DirPolicy::Literal => attributes | ATTR_SUB_DIR == 0,
        DirPolicy::Corrected => attributes & ATTR_SUB_DIR != 0,
    }
}

/// The end-of-directory sentinel: the slot's first two bytes, read as a
/// little-endian word and masked with `0xFFF0`, are zero.
pub open spec fn spec_is_end_marker(slot: Seq<u8>) -> bool
    recommends
        slot.len() >= 32,
{
    (le16(slot, 0) as u16) & 0xFFF0 == 0
}

/// The mathematical shape of one displayed entry.
pub struct ListingModel {
    /// Whether the entry was displayed as a directory.
    pub is_dir: bool,
    /// The entry's file size in bytes.
    pub size: u32,
    /// The space-trimmed name tag.
    pub name: Seq<u8>,
    /// The space-trimmed extension tag; directories carry none.
    pub ext: Option<Seq<u8>>,
    /// The decoded creation timestamp.
    pub created: Timestamp,
}

/// One displayed entry of the root directory.
#[derive(Clone, Debug, PartialEq, Eq)]
pub struct Listing {
    /// Whether the entry was displayed as a directory.
    pub is_dir: bool,
    /// The entry's file size in bytes.
    pub file_size: u32,
    /// The space-trimmed name tag.
    pub name: Vec<u8>,
    /// The space-trimmed extension tag; directories carry none.
    pub ext: Option<Vec<u8>>,
    /// The decoded creation timestamp.
    pub created: Timestamp,
}

impl View for Listing {
    type V = ListingModel;

    open spec fn view(&self) -> ListingModel {
        ListingModel {
            is_dir: self.is_dir,
            size: self.file_size,
            name: self.name@,
            ext: match self.ext {
                Some(v) => Some(v@),
                None => None,
            },
            created: self.created,
        }
    }
}

/// The listing that a live slot yields under `policy`.
pub open spec fn spec_listing(slot: Seq<u8>, policy: DirPolicy) -> ListingModel
    recommends
        slot.len() >= 32,
{
    let is_dir = spec_is_dir(slot[11], policy);
    ListingModel {
        is_dir,
        size: slot_size(slot),
        name: trim_spaces(slot.subrange(0, 8)),
        ext: if is_dir {
            None
        } else {
            Some(trim_spaces(slot.subrange(8, 11)))
        },
        created: spec_timestamp(slot_date(slot), slot_time(slot)),
    }
}

/// The packed creation date held by a slot.
pub open spec fn slot_date(slot: Seq<u8>) -> u16 {
    le16(slot, 16) as u16
}

/// The packed creation time held by a slot.
pub open spec fn slot_time(slot: Seq<u8>) -> u16 {
    le16(slot, 14) as u16
}

/// The file size held by a slot.
pub open spec fn slot_size(slot: Seq<u8>) -> u32 {
    crate::bytes::le32(slot, 28) as u32
}

/// Slot `i` of a root-directory region: its bytes `32 i .. 32 i + 32`.
pub open spec fn slot_at(region: Seq<u8>, i: int) -> Seq<u8> {
    region.subrange(32 * i, 32 * i + 32)
}

/// What a whole scan comes to.
pub enum ScanModel {
    /// A slot the scan needed lies beyond the region's end.
    Truncated,
    /// A live slot's packed creation date/time denotes no calendar moment.
    BadTimestamp,
    /// The scan ran to its stop: the listings in slot order, and how many
    /// slots it examined.
    Done { listings: Seq<ListingModel>, examined: int },
}

/// Prepends one examined slot — with its listing, if it showed one — to the
/// outcome of the slots after it; a failure passes through.
pub open spec fn scan_cons(head: Option<ListingModel>, rest: ScanModel) -> ScanModel {
    match rest {
        ScanModel::Done { listings, examined } => ScanModel::Done {
            listings: match head {
                Some(l) => seq![l] + listings,
                None => listings,
            },
            examined: examined + 1,
        },
        _ => rest,
    }
}

/// The outcome of scanning slots `i .. max` of `region`: stop at the
/// sentinel, skip slots with a low attribute bit set, list the rest.
pub open spec fn scan_from(region: Seq<u8>, i: nat, max: nat, policy: DirPolicy) -> ScanModel
    decreases max - i,
{
    if i >= max {
        ScanModel::Done { listings: Seq::empty(), examined: 0 }
    } else if region.len() < 32 * i + 32 {
        ScanModel::Truncated
    } else {
        let slot = slot_at(region, i as int);
        if spec_is_end_marker(slot) {
            ScanModel::Done { listings: Seq::empty(), examined: 1 }
        } else if slot[11] & ATTR_SKIP_MASK != 0 {
            scan_cons(None, scan_from(region, i + 1, max, policy))
        } else if !valid_packed_datetime(slot_date(slot), slot_time(slot)) {
            ScanModel::BadTimestamp
        } else {
            scan_cons(Some(spec_listing(slot, policy)), scan_from(region, i + 1, max, policy))
        }
    }
}

/// The outcome of scanning a region of up to `max` slots from its start.
pub open spec fn scan_model(region: Seq<u8>, max: nat, policy: DirPolicy) -> ScanModel {
    scan_from(region, 0, max, policy)
}

/// Where the root directory starts: one boot sector, then the FAT copies.
///
/// The offset is `bytes_per_sector * (fats * sectors_per_fat + 1)` — exactly
/// one reserved sector is assumed before the FAT area, as on the floppy
/// layouts this crate targets; the `reserved_sectors` field deliberately
/// plays no part.
pub fn root_dir_start(info: &DiskInfo) -> (r: u64)
    ensures
        r == info.bytes_per_sector * (info.fats * info.sectors_per_fat + 1),
{
    proof {
        assert(info.fats * info.sectors_per_fat <= 0xff * 0xffff) by (nonlinear_arith)
            requires
                info.fats <= 0xff,
                info.sectors_per_fat <= 0xffff,
        ;
    }
    let fat_area: u64 = (info.fats as u64) * (info.sectors_per_fat as u64);
    proof {
        assert(info.bytes_per_sector * (fat_area + 1) <= 0xffff * (0xff * 0xffff + 1))
            by (nonlinear_arith)
            requires
                info.bytes_per_sector <= 0xffff,
                fat_area <= 0xff * 0xffff,
        ;
    }
    (info.bytes_per_sector as u64) * (fat_area + 1)
}

/// What one examined slot tells the scan to do.
#[derive(Clone, Debug, PartialEq, Eq)]
pub enum SlotAction {
    /// The slot is the end-of-directory sentinel: read nothing more.
    Stop,
    /// A low attribute bit is set: show nothing, go on to the next slot.
    Skip,
    /// A live entry to display.
    Entry(Listing),
}

/// Decides one scan step from one 32-byte slot.
///
/// A buffer shorter than a slot is a format error; the sentinel stops the
/// scan; a slot with a low attribute bit set is skipped; a live slot whose
/// creation stamp decodes is turned into its listing, and one whose stamp
/// does not is an invalid-timestamp error.
pub fn scan_step(slot: &[u8], policy: DirPolicy) -> (r: Result<SlotAction, FatError>)
    ensures
        slot@.len() < 32 ==> r == Err::<SlotAction, FatError>(FatError::Format),
        slot@.len() >= 32 && spec_is_end_marker(slot@) ==> (r matches Ok(a) && a is Stop),
        slot@.len() >= 32 && !spec_is_end_marker(slot@) && slot@[11] & ATTR_SKIP_MASK != 0 ==> (
        r matches Ok(a) && a is Skip),
        slot@.len() >= 32 && !spec_is_end_marker(slot@) && slot@[11] & ATTR_SKIP_MASK == 0
            && !valid_packed_datetime(slot_date(slot@), slot_time(slot@)) ==> r == Err::<
            SlotAction,
            FatError,
        >(FatError::InvalidTimestamp),
        slot@.len() >= 32 && !spec_is_end_marker(slot@) && slot@[11] & ATTR_SKIP_MASK == 0
            && valid_packed_datetime(slot_date(slot@), slot_time(slot@)) ==> (r matches Ok(a)
            && a matches SlotAction::Entry(l) && l@ == spec_listing(slot@, policy)),
{
    if slot.len() < 32 {
        return Err(FatError::Format);
    }
    let first = crate::bytes::read_u16_at(slot, 0);
    proof {
        assert(first == le16(slot@, 0) as u16);
    }
    if first & 0xFFF0 == 0 {
        return Ok(SlotAction::Stop);
    }
    let entry = match DirEntry::parse(slot) {
        Ok(e) => e,
        Err(e) => {
            return Err(e);
        },
    };
    if entry.attributes & ATTR_SKIP_MASK != 0 {
        return Ok(SlotAction::Skip);
    }
    proof {
        assert(entry.create_date == slot_date(slot@));
        assert(entry.create_time == slot_time(slot@));
    }
    let created = match decode_datetime(entry.create_date, entry.create_time) {
        Ok(t) => t,
        Err(e) => {
            return Err(e);
        },
    };
    let is_dir = is_directory(entry.attributes, policy);
    let name = trim_ascii_spaces(entry.file_name.as_slice());
    let ext = if is_dir {
        None
    } else {
        Some(trim_ascii_spaces(entry.file_ext.as_slice()))
    };
    Ok(
        SlotAction::Entry(
            Listing { is_dir, file_size: entry.file_size, name, ext, created },
        ),
    )
}

/// The listings a scan produced, and how far it looked.
#[derive(Debug, PartialEq, Eq)]
pub struct ScanResult {
    /// One listing per live entry, in slot order.
    pub listings: Vec<Listing>,
    /// How many slots the scan examined, the sentinel included.
    pub slots_examined: usize,
}

/// Scans up to `max_entries` slots of a root-directory region.
///
/// The region's bytes are expected to start at the offset
/// [`root_dir_start`] gives; `max_entries` is the table's capacity, the
/// `root_dir_entries` field. The result follows [`scan_model`] exactly: the
/// listings of the live entries in slot order together with the count of
/// slots examined, a format error where a needed slot lies beyond the
/// region, an invalid-timestamp error where a live slot's stamp decodes to
/// no calendar moment. Slots past the one that stops the scan are never
/// looked at, so a region that ends right after the sentinel scans cleanly.
pub fn scan_root_dir(region: &[u8], max_entries: u16, policy: DirPolicy) -> (r: Result<
    ScanResult,
    FatError,
>)
    ensures
        (scan_model(region@, max_entries as nat, policy) matches ScanModel::Done {
            listings,
            examined,
        } ==> (r matches Ok(res) && res.listings@.map_values(|l: Listing| l@) == listings
            && res.slots_examined == examined)),
        scan_model(region@, max_entries as nat, policy) is Truncated ==> r == Err::<
            ScanResult,
            FatError,
        >(FatError::Format),
        scan_model(region@, max_entries as nat, policy) is BadTimestamp ==> r == Err::<
            ScanResult,
            FatError,
        >(FatError::InvalidTimestamp),
{
    let ghost max: nat = max_entries as nat;
    let mut listings: Vec<Listing> = Vec::new();
    let mut i: usize = 0;
    proof {
        assert(listings@.map_values(|l: Listing| l@) =~= Seq::<ListingModel>::empty());
    }
    while i < max_entries as usize
        invariant
            i <= max_entries,
            max == max_entries as nat,
            (scan_from(region@, i as nat, max, policy) matches ScanModel::Done {
                listings: rest,
                examined,
            } ==> scan_model(region@, max, policy) == (ScanModel::Done {
                listings: listings@.map_values(|l: Listing| l@) + rest,
                examined: i + examined,
            })),
            scan_from(region@, i as nat, max, policy) is Truncated ==> scan_model(
                region@,
                max,
                policy,
            ) is Truncated,
            scan_from(region@, i as nat, max, policy) is BadTimestamp ==> scan_model(
                region@,
                max,
                policy,
            ) is BadTimestamp,
        decreases max_entries - i,
    {
        if region.len() < 32 * i + 32 {
            assert(scan_from(region@, i as nat, max, policy) is Truncated);
            return Err(FatError::Format);
        }
        let slot = vstd::slice::slice_subrange(region, 32 * i, 32 * i + 32);
        proof {
            assert(slot@ == slot_at(region@, i as int));
        }
        let ghost head_model = scan_from(region@, i as nat, max, policy);
        match scan_step(slot, policy) {
            Err(e) => {
                assert(head_model is BadTimestamp);
                return Err(e);
            },
            Ok(SlotAction::Stop) => {
                assert(head_model == (ScanModel::Done {
                    listings: Seq::<ListingModel>::empty(),
                    examined: 1int,
                }));
                proof {
                    assert(listings@.map_values(|l: Listing| l@) + Seq::<
                        ListingModel,
                    >::empty() =~= listings@.map_values(|l: Listing| l@));
                }
                return Ok(ScanResult { listings, slots_examined: i + 1 });
            },
            Ok(SlotAction::Skip) => {
                proof {
                    assert(head_model == scan_cons(
                        None,
                        scan_from(region@, i as nat + 1, max, policy),
                    ));
                }
                i = i + 1;
            },
            Ok(SlotAction::Entry(l)) => {
                proof {
                    assert(head_model == scan_cons(
                        Some(spec_listing(slot_at(region@, i as int), policy)),
                        scan_from(region@, i as nat + 1, max, policy),
                    ));
                    assert(listings@.push(l).map_values(|x: Listing| x@) =~= listings@.map_values(
                        |x: Listing| x@,
                    ).push(l@));
                }
                let ghost old_listings = listings@;
                listings.push(l);
                proof {
                    if let ScanModel::Done { listings: rest, examined } = scan_from(
                        region@,
                        i as nat + 1,
                        max,
                        policy,
                    ) {
                        assert(old_listings.map_values(|x: Listing| x@) + (seq![l@] + rest)
                            =~= listings@.map_values(|x: Listing| x@) + rest);
                    }
                }
                i = i + 1;
            },
        }
    }
    proof {
        assert(scan_from(region@, i as nat, max, policy) == (ScanModel::Done {
            listings: Seq::<ListingModel>::empty(),
            examined: 0int,
        }));
        assert(listings@.map_values(|l: Listing| l@) + Seq::<ListingModel>::empty()
            =~= listings@.map_values(|l: Listing| l@));
    }
    Ok(ScanResult { listings, slots_examined: i })
}

/// A live, displayable slot: not the sentinel, no low attribute bit set, and
/// a creation stamp that decodes.
pub open spec fn is_live_slot(slot: Seq<u8>) -> bool
    recommends
        slot.len() >= 32,
{
    &&& !spec_is_end_marker(slot)
    &&& slot[11] & ATTR_SKIP_MASK == 0
    &&& valid_packed_datetime(slot_date(slot), slot_time(slot))
}

proof fn lemma_scan_from_counts(region: Seq<u8>, i: nat, n: nat, max: nat, policy: DirPolicy)
    requires
        i <= n < max,
        32 * n + 32 <= region.len(),
        forall|k: int| i <= k < n ==> is_live_slot(#[trigger] slot_at(region, k)),
        spec_is_end_marker(slot_at(region, n as int)),
    ensures
        scan_from(region, i, max, policy) matches ScanModel::Done { listings, examined }
            && listings == Seq::new(
            (n - i) as nat,
            |j: int| spec_listing(slot_at(region, i + j), policy),
        ) && examined == n - i + 1,
    decreases n - i,
{
    if i == n {
        assert(Seq::new(0, |j: int| spec_listing(slot_at(region, i + j), policy))
            =~= Seq::<ListingModel>::empty());
    } else {
        assert(is_live_slot(slot_at(region, i as int)));
        lemma_scan_from_counts(region, i + 1, n, max, policy);
        let rest = Seq::new(
            (n - i - 1) as nat,
            |j: int| spec_listing(slot_at(region, i + 1 + j), policy),
        );
        assert(seq![spec_listing(slot_at(region, i as int), policy)] + rest =~= Seq::new(
            (n - i) as nat,
            |j: int| spec_listing(slot_at(region, i + j), policy),
        ));
    }
}

/// Termination law: when the first `n` slots of a region are live entries
/// and slot `n` begins with two zero bytes — the end-of-directory sentinel —
/// a scan of up to `max > n` slots lists exactly the `n` entries' listings in
/// slot order and examines exactly `n + 1` slots, so nothing past the
/// sentinel slot is read.
pub proof fn lemma_scan_stops_at_sentinel(region: Seq<u8>, n: nat, max: nat, policy: DirPolicy)
    requires
        n < max,
        32 * n + 32 <= region.len(),
        forall|k: int| 0 <= k < n ==> is_live_slot(#[trigger] slot_at(region, k)),
        slot_at(region, n as int)[0] == 0,
        slot_at(region, n as int)[1] == 0,
    ensures
        scan_model(region, max, policy) matches ScanModel::Done { listings, examined }
            && listings == Seq::new(n, |j: int| spec_listing(slot_at(region, j), policy))
            && examined == n + 1,
{
    assert(le16(slot_at(region, n as int), 0) == 0);
    assert(0u16 & 0xFFF0 == 0) by (bit_vector);
    lemma_scan_from_counts(region, 0, n, max, policy);
    assert(Seq::new(n, |j: int| spec_listing(slot_at(region, 0 + j), policy)) =~= Seq::new(
        n,
        |j: int| spec_listing(slot_at(region, j), policy),
    ));
}

/// Skip law: a slot whose attribute byte is the volume-label or the hidden
/// bit shows no listing — the scan's outcome is that of the later slots with
/// one more slot examined — while a slot whose attribute byte is the archive
/// bit or zero, with a decodable creation stamp, shows exactly its one
/// listing in front of them.
pub proof fn lemma_skip_rule(region: Seq<u8>, i: nat, max: nat, policy: DirPolicy)
    requires
        i < max,
        32 * i + 32 <= region.len(),
        !spec_is_end_marker(slot_at(region, i as int)),
    ensures
        (slot_at(region, i as int)[11] == ATTR_VOLUME_LABEL || slot_at(region, i as int)[11]
            == ATTR_HIDDEN) ==> scan_from(region, i, max, policy) == scan_cons(
            None,
            scan_from(region, i + 1, max, policy),
        ),
        (slot_at(region, i as int)[11] == ATTR_ARCHIVE || slot_at(region, i as int)[11] == 0)
            && valid_packed_datetime(
            slot_date(slot_at(region, i as int)),
            slot_time(slot_at(region, i as int)),
        ) ==> scan_from(region, i, max, policy) == scan_cons(
            Some(spec_listing(slot_at(region, i as int), policy)),
            scan_from(region, i + 1, max, policy),
        ),
{
    let a = slot_at(region, i as int)[11];
    assert((a == 0x08 || a == 0x02) ==> a & 0x0F != 0) by (bit_vector);
    assert((a == 0x20 || a == 0x00) ==> a & 0x0F == 0) by (bit_vector);
}

} // verus!
