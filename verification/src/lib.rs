//! Read-only inspection of FAT12/16 disk images.
//!
//! The crate decodes the 512-byte boot sector into a [`boot_sector::DiskInfo`]
//! record, decodes 32-byte root-directory slots into [`dir_entry::DirEntry`]
//! records, unpacks FAT's packed date/time words, and scans a root-directory
//! region into a listing of the live entries. All decoding works on plain byte
//! buffers; opening the image file and printing the listing are left to the
//! caller.

pub mod boot_sector;
pub mod bytes;
pub mod datetime;
pub mod dir_entry;
pub mod error;
pub mod scanner;
