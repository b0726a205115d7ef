//! Errors that the library reports to its callers.
use vstd::prelude::*;

verus! {

/// Why a request, a batch or a stored record was refused.
#[derive(Debug, Clone, Copy, PartialEq, Eq, Structural)]
pub enum IggyError {
    /// The bytes do not have the shape that the command asks for.
    InvalidCommand,
    /// A fixed-width number would reach past the end of its buffer.
    InvalidNumberEncoding,
    /// A message lies further from the batch's origin timestamp than the
    /// delta field can hold; carries that distance in microseconds.
    InvalidMessageTimestampDelta(u64),
    /// Stored and recomputed batch checksum, and the batch's base offset.
    InvalidBatchChecksum(u64, u64, u64),
    /// Stored and recomputed message checksum, and the message's offset.
    InvalidMessageChecksum(u64, u64, u64),
    /// A file cannot be opened or read.
    CannotReadFile,
    /// The size of a file cannot be had or used.
    CannotReadFileMetadata,
    /// An identifier is missing or names nothing.
    InvalidIdentifier,
    /// A group member asked for a partition that it does not own: the low bits
    /// of its client id, and the partition.
    ConsumerGroupPartitionNotOwned(u32, u32),
    /// The request was not taken in and may be sent again.
    TransientNotAccepted,
    /// A snapshot archive cannot be delivered.
    SnapshotFileCompletionFailed,
    /// A frame is too large for its size field.
    InvalidConfiguration,
    /// An error of a collaborator, by its code.
    Other(u32),
}

} // verus!
