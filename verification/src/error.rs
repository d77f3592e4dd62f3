//! The failure kinds of the decoding layer.

use vstd::prelude::*;

verus! {

/// Why a decoding operation could not produce a value.
///
/// Reading or seeking the image file is the caller's business, so an I/O
/// failure never reaches these variants; they cover only what the byte-level
/// logic itself can reject.
#[derive(Clone, Copy, Debug, PartialEq, Eq)]
pub enum FatError {
    /// A buffer is shorter than the decoding logic requires.
    Format,
    /// A packed date/time does not denote a real calendar moment.
    InvalidTimestamp,
}

} // verus!
