use fat12::boot_sector::DiskInfo;
use fat12::error::FatError;
use fat12::scanner::{root_dir_start, scan_root_dir, scan_step, DirPolicy, SlotAction};

/// A 32-byte slot for a live file entry: creation stamp 1980-01-01 00:00:00.
fn slot(name: &[u8; 8], ext: &[u8; 3], attributes: u8, size: u32) -> Vec<u8> {
    let mut buf = vec![0u8; 32];
    buf[0..8].copy_from_slice(name);
    buf[8..11].copy_from_slice(ext);
    buf[11] = attributes;
    buf[16] = 0x21; // create_date: 1980-01-01
    buf[28..32].copy_from_slice(&size.to_le_bytes());
    buf
}

/// A slot whose first two bytes are zero: the end-of-directory sentinel.
fn sentinel_slot() -> Vec<u8> {
    vec![0u8; 32]
}

fn sample_disk_info() -> DiskInfo {
    DiskInfo {
        os_name: b"MSDOS5.0".to_vec(),
        bytes_per_sector: 512,
        sectors_per_cluster: 4,
        reserved_sectors: 1,
        fats: 2,
        root_dir_entries: 224,
        total_sectors: 2880,
        sectors_per_fat: 9,
        sectors_per_track: 18,
        heads: 2,
        boot_signature: 0x29,
        volume_id: 0x12345678,
        volume_label: b"NO NAME    ".to_vec(),
        fs_type: b"FAT12   ".to_vec(),
    }
}

#[test]
fn floppy_root_dir_offset_is_9728() {
    let info = sample_disk_info();
    assert_eq!(root_dir_start(&info), 512 * (2 * 9 + 1));
    assert_eq!(root_dir_start(&info), 9728);
}

#[test]
fn scan_lists_n_entries_then_stops_at_sentinel() {
    let mut region = Vec::new();
    region.extend_from_slice(&slot(b"ALPHA   ", b"TXT", 0x20, 11));
    region.extend_from_slice(&slot(b"BETA    ", b"BIN", 0x00, 22));
    region.extend_from_slice(&sentinel_slot());
    // The region ends right after the sentinel: a scan that looked further
    // would fail, so success shows no slot past it is read.
    let r = scan_root_dir(&region, 224, DirPolicy::Literal).unwrap();
    assert_eq!(r.listings.len(), 2);
    assert_eq!(r.slots_examined, 3);
    assert_eq!(r.listings[0].name, b"ALPHA".to_vec());
    assert_eq!(r.listings[0].ext, Some(b"TXT".to_vec()));
    assert_eq!(r.listings[0].file_size, 11);
    assert_eq!(r.listings[1].name, b"BETA".to_vec());
    assert_eq!(r.listings[1].file_size, 22);
}

#[test]
fn hidden_and_volume_label_slots_show_nothing() {
    let mut region = Vec::new();
    region.extend_from_slice(&slot(b"HIDDEN  ", b"TXT", 0x02, 1));
    region.extend_from_slice(&slot(b"LABEL   ", b"   ", 0x08, 2));
    region.extend_from_slice(&slot(b"ARCHIVE ", b"TXT", 0x20, 3));
    region.extend_from_slice(&slot(b"PLAIN   ", b"TXT", 0x00, 4));
    region.extend_from_slice(&sentinel_slot());
    let r = scan_root_dir(&region, 224, DirPolicy::Literal).unwrap();
    assert_eq!(r.listings.len(), 2);
    assert_eq!(r.slots_examined, 5);
    assert_eq!(r.listings[0].name, b"ARCHIVE".to_vec());
    assert_eq!(r.listings[1].name, b"PLAIN".to_vec());
}

#[test]
fn read_only_and_system_slots_show_nothing() {
    let mut region = Vec::new();
    region.extend_from_slice(&slot(b"RDONLY  ", b"TXT", 0x01, 1));
    region.extend_from_slice(&slot(b"SYSTEM  ", b"TXT", 0x04, 2));
    region.extend_from_slice(&sentinel_slot());
    let r = scan_root_dir(&region, 224, DirPolicy::Literal).unwrap();
    assert_eq!(r.listings.len(), 0);
    assert_eq!(r.slots_examined, 3);
}

#[test]
fn table_capacity_bounds_the_scan() {
    // Two live slots and no sentinel: the scan stops because the table
    // holds only two entries.
    let mut region = Vec::new();
    region.extend_from_slice(&slot(b"ALPHA   ", b"TXT", 0x20, 1));
    region.extend_from_slice(&slot(b"BETA    ", b"TXT", 0x20, 2));
    let r = scan_root_dir(&region, 2, DirPolicy::Literal).unwrap();
    assert_eq!(r.listings.len(), 2);
    assert_eq!(r.slots_examined, 2);
}

#[test]
fn empty_capacity_reads_nothing() {
    let r = scan_root_dir(&[], 0, DirPolicy::Literal).unwrap();
    assert_eq!(r.listings.len(), 0);
    assert_eq!(r.slots_examined, 0);
}

#[test]
fn truncated_region_is_a_format_error() {
    let mut region = Vec::new();
    region.extend_from_slice(&slot(b"ALPHA   ", b"TXT", 0x20, 1));
    region.extend_from_slice(&[0x41; 8]); // a torn slot, then nothing
    assert_eq!(
        scan_root_dir(&region, 224, DirPolicy::Literal),
        Err(FatError::Format)
    );
}

#[test]
fn live_slot_with_bad_stamp_aborts_the_scan() {
    let mut bad = slot(b"BADDATE ", b"TXT", 0x20, 1);
    bad[16] = 0x00; // create_date with month 0 and day 0
    let mut region = Vec::new();
    region.extend_from_slice(&slot(b"ALPHA   ", b"TXT", 0x20, 1));
    region.extend_from_slice(&bad);
    region.extend_from_slice(&sentinel_slot());
    assert_eq!(
        scan_root_dir(&region, 224, DirPolicy::Literal),
        Err(FatError::InvalidTimestamp)
    );
}

#[test]
fn skipped_slot_needs_no_valid_stamp() {
    // The skip rule fires before the stamp is decoded.
    let mut hidden_bad = slot(b"HIDDEN  ", b"TXT", 0x02, 1);
    hidden_bad[16] = 0x00;
    let mut region = Vec::new();
    region.extend_from_slice(&hidden_bad);
    region.extend_from_slice(&sentinel_slot());
    let r = scan_root_dir(&region, 224, DirPolicy::Literal).unwrap();
    assert_eq!(r.listings.len(), 0);
    assert_eq!(r.slots_examined, 2);
}

#[test]
fn literal_policy_never_sees_a_directory() {
    let mut region = Vec::new();
    region.extend_from_slice(&slot(b"SUBDIR  ", b"   ", 0x10, 0));
    region.extend_from_slice(&sentinel_slot());
    let r = scan_root_dir(&region, 224, DirPolicy::Literal).unwrap();
    assert_eq!(r.listings.len(), 1);
    assert!(!r.listings[0].is_dir);
    assert_eq!(r.listings[0].ext, Some(b"".to_vec()));
}

#[test]
fn corrected_policy_reads_the_subdir_bit() {
    let mut region = Vec::new();
    region.extend_from_slice(&slot(b"SUBDIR  ", b"   ", 0x10, 0));
    region.extend_from_slice(&slot(b"FILE    ", b"TXT", 0x20, 7));
    region.extend_from_slice(&sentinel_slot());
    let r = scan_root_dir(&region, 224, DirPolicy::Corrected).unwrap();
    assert_eq!(r.listings.len(), 2);
    assert!(r.listings[0].is_dir);
    assert_eq!(r.listings[0].ext, None);
    assert!(!r.listings[1].is_dir);
    assert_eq!(r.listings[1].ext, Some(b"TXT".to_vec()));
}

#[test]
fn names_are_trimmed_on_both_sides() {
    let mut region = Vec::new();
    region.extend_from_slice(&slot(b"  AB    ", b"C  ", 0x20, 1));
    region.extend_from_slice(&sentinel_slot());
    let r = scan_root_dir(&region, 224, DirPolicy::Literal).unwrap();
    assert_eq!(r.listings[0].name, b"AB".to_vec());
    assert_eq!(r.listings[0].ext, Some(b"C".to_vec()));
}

#[test]
fn sentinel_check_masks_the_low_four_bits() {
    // First word 0x000F: masked with 0xFFF0 it is zero, so the scan stops
    // even though the word itself is not zero.
    let mut almost_zero = sentinel_slot();
    almost_zero[0] = 0x0F;
    let a = scan_step(&almost_zero, DirPolicy::Literal).unwrap();
    assert!(matches!(a, SlotAction::Stop));
    // First word 0x0010 escapes the mask: the slot is scanned normally.
    let mut live = slot(b"\x10LIVE   ", b"TXT", 0x20, 1);
    live[0] = 0x10;
    live[1] = 0x00;
    let a = scan_step(&live, DirPolicy::Literal).unwrap();
    assert!(matches!(a, SlotAction::Entry(_)));
}

#[test]
fn scan_step_rejects_a_short_slot() {
    assert_eq!(
        scan_step(&[0u8; 31], DirPolicy::Literal),
        Err(FatError::Format)
    );
}
