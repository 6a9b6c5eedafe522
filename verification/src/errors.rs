//! Error taxonomy of the filesystem core.
//!
//! `IoError` describes failures of the block-device layer; `Ext4Error` is what
//! the ext4 reader reports upward. A checksum mismatch on an interior extent
//! block is a *soft* failure: it is counted on the loaded tree rather than
//! reported as an error, and a logical block with no covering extent is
//! surfaced as `None` by the lookup, never as an error.

use vstd::prelude::*;

verus! {

/// Failure of the underlying block device: the read failed outright, timed
/// out, returned fewer bytes than asked, or the request itself was malformed.
#[derive(Clone, Copy, Debug, PartialEq, Eq, Structural)]
pub enum IoError {
    DeviceFailure,
    IoTimeout,
    ShortRead,
    InvalidCommand,
}

/// What the ext4 reader can report to its caller.
///
/// Errors of the device propagate unchanged inside `Io`. `CorruptMetadata`
/// covers a magic mismatch, a depth out of range, an entry count that exceeds
/// the node's capacity, and structurally invalid entries. `UnsupportedFeature`
/// covers a filesystem or a device geometry that the reader does not handle.
#[derive(Clone, Copy, Debug, PartialEq, Eq, Structural)]
pub enum Ext4Error {
    Io(IoError),
    CorruptMetadata,
    UnsupportedFeature,
}

} // verus!
