//! The error taxonomy shared by every decoder of the volume.

use vstd::prelude::*;

verus! {

/// Why an operation on the volume failed.
#[derive(Clone, Copy, Debug, PartialEq, Eq, Structural)]
pub enum Error {
    /// A structural violation: bad magic, wrong size, a must-be-zero region
    /// that is not zero.
    InvalidFormat,
    /// A stored checksum differs from the one computed over the data.
    ChecksumMismatch,
    /// The metadata contradicts itself: a FAT chain that points backward, an
    /// unexpected record inside a directory entry set, a truncated set.
    Corruption,
    /// The block reader failed, or the FAT marks a cluster as bad.
    IoError,
    /// A buffer that had to be built does not fit into memory.
    ResourceExhaustion,
}

/// The result of an operation on the volume.
pub type Result<T> = core::result::Result<T, Error>;

} // verus!
