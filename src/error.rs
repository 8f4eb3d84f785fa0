//! The errors that the encoder reports.
use vstd::prelude::*;

verus! {

/// Why an encoder operation refused to act.
#[derive(Clone, Copy, Debug, PartialEq, Eq, Structural)]
pub enum ZipError {
    /// The archive name is empty after normalisation, or longer than the
    /// 16-bit name-length field can declare.
    InvalidName,
    /// The modification time cannot be read, or lies outside the years 1980
    /// to 2107 that an MS-DOS date can hold.
    InvalidTimestamp,
    /// The archive would grow beyond what 64-bit offsets can address.
    ArchiveTooLarge,
}

} // verus!
