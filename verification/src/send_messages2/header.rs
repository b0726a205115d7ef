//! The command header in front of a batch.
use crate::codec::{copy_into, le_at, le_bytes, push_le, read_u32, read_u64};
use crate::error::IggyError;
use vstd::prelude::*;

verus! {

/// Bytes of the command header.
pub const COMMAND_HEADER_SIZE: usize = 256;

/// Where the blob starts in a prepare: behind the frame header and the command
/// header.
pub const PREPARE_SPLIT_POINT: usize = 512;

/// Where the batch checksum lies in the command header.
pub const BATCH_CHECKSUM_OFFSET: usize = 40;

/// Where the message count lies in the command header.
pub const MESSAGE_COUNT_OFFSET: usize = 48;

/// What the command header says of its batch.
#[derive(Debug, Clone, Copy, PartialEq, Eq, Structural)]
pub struct SendMessages2Header {
    pub partition_id: u64,
    pub base_offset: u64,
    pub base_timestamp: u64,
    pub origin_timestamp: u64,
    /// Bytes of the command header and the blob together.
    pub batch_length: u64,
    pub batch_checksum: u64,
    pub message_count: u32,
}

/// A command header in its wire form.
pub type FrozenBatchHeader = Vec<u8>;

/// The 256 bytes of `header`; all that no field takes up is zero.
pub open spec fn header_bytes(header: SendMessages2Header) -> Seq<u8> {
    le_bytes(header.partition_id as nat, 8) + le_bytes(header.base_offset as nat, 8) + le_bytes(
        header.base_timestamp as nat,
        8,
    ) + le_bytes(header.origin_timestamp as nat, 8) + le_bytes(header.batch_length as nat, 8)
        + le_bytes(header.batch_checksum as nat, 8) + le_bytes(header.message_count as nat, 4)
        + le_bytes(0, 204)
}

/// The header that the first 256 of `bytes` hold. There is none where `bytes`
/// are fewer, or where the batch would be shorter than its own header.
pub open spec fn decoded_header(bytes: Seq<u8>) -> Option<SendMessages2Header> {
    if bytes.len() < COMMAND_HEADER_SIZE || le_at(bytes, 32, 8) < COMMAND_HEADER_SIZE {
        None
    } else {
        Some(
            SendMessages2Header {
                partition_id: le_at(bytes, 0, 8) as u64,
                base_offset: le_at(bytes, 8, 8) as u64,
                base_timestamp: le_at(bytes, 16, 8) as u64,
                origin_timestamp: le_at(bytes, 24, 8) as u64,
                batch_length: le_at(bytes, 32, 8) as u64,
                batch_checksum: le_at(bytes, 40, 8) as u64,
                message_count: le_at(bytes, 48, 4) as u32,
            },
        )
    }
}

impl Default for SendMessages2Header {
    fn default() -> (header: Self)
        ensures
            header == (SendMessages2Header {
                partition_id: 0,
                base_offset: 0,
                base_timestamp: 0,
                origin_timestamp: 0,
                batch_length: 0,
                batch_checksum: 0,
                message_count: 0,
            }),
    {
        SendMessages2Header {
            partition_id: 0,
            base_offset: 0,
            base_timestamp: 0,
            origin_timestamp: 0,
            batch_length: 0,
            batch_checksum: 0,
            message_count: 0,
        }
    }
}

/// The header of a batch that has no place in its partition yet.
pub open spec fn fresh_header(
    partition_id: u64,
    origin_timestamp: u64,
    batch_length: u64,
    message_count: u32,
) -> SendMessages2Header {
    SendMessages2Header {
        partition_id,
        base_offset: 0,
        base_timestamp: 0,
        origin_timestamp,
        batch_length,
        batch_checksum: 0,
        message_count,
    }
}

impl SendMessages2Header {
    /// A header with the given fields; offset, timestamp and checksum are zero.
    pub fn new(
        partition_id: u64,
        origin_timestamp: u64,
        batch_length: u64,
        message_count: u32,
    ) -> (header: Self)
        ensures
            header == fresh_header(partition_id, origin_timestamp, batch_length, message_count),
    {
        SendMessages2Header {
            partition_id,
            base_offset: 0,
            base_timestamp: 0,
            origin_timestamp,
            batch_length,
            batch_checksum: 0,
            message_count,
        }
    }

    /// Reads the header in front of `bytes`.
    pub fn decode(bytes: &[u8]) -> (header: Result<Self, IggyError>)
        ensures
            header == (match decoded_header(bytes@) {
                Some(found) => Ok::<Self, IggyError>(found),
                None => Err(IggyError::InvalidCommand),
            }),
    {
        if bytes.len() < COMMAND_HEADER_SIZE {
            return Err(IggyError::InvalidCommand);
        }
        let batch_length: u64 = read_u64(bytes, 32)?;
        if batch_length < 256 {
            return Err(IggyError::InvalidCommand);
        }
        Ok(
            SendMessages2Header {
                partition_id: read_u64(bytes, 0)?,
                base_offset: read_u64(bytes, 8)?,
                base_timestamp: read_u64(bytes, 16)?,
                origin_timestamp: read_u64(bytes, 24)?,
                batch_length,
                batch_checksum: read_u64(bytes, BATCH_CHECKSUM_OFFSET)?,
                message_count: read_u32(bytes, MESSAGE_COUNT_OFFSET)?,
            },
        )
    }

    /// Writes the header over the first 256 of `bytes`.
    pub fn encode_into(&self, bytes: &mut [u8])
        requires
            old(bytes)@.len() >= COMMAND_HEADER_SIZE,
        ensures
            final(bytes)@ == header_bytes(*self) + old(bytes)@.subrange(
                COMMAND_HEADER_SIZE as int,
                old(bytes)@.len() as int,
            ),
    {
        let ghost before = bytes@;
        let encoded = self.into_frozen();
        copy_into(bytes, 0, encoded.as_slice());
        assert(bytes@ =~= header_bytes(*self) + before.subrange(256, before.len() as int));
    }

    /// Bytes of the whole batch.
    pub fn total_size(&self) -> (size: usize)
        requires
            self.batch_length <= usize::MAX,
        ensures
            size == self.batch_length,
    {
        self.batch_length as usize
    }

    /// Bytes of the blob behind the header.
    pub fn blob_len(&self) -> (len: Result<usize, IggyError>)
        ensures
            len == (if COMMAND_HEADER_SIZE <= self.batch_length && self.batch_length
                - COMMAND_HEADER_SIZE <= usize::MAX {
                Ok::<usize, IggyError>((self.batch_length - COMMAND_HEADER_SIZE) as usize)
            } else {
                Err(IggyError::InvalidCommand)
            }),
    {
        if self.batch_length < 256 {
            return Err(IggyError::InvalidCommand);
        }
        let len: u64 = self.batch_length - 256;
        if len > usize::MAX as u64 {
            return Err(IggyError::InvalidCommand);
        }
        Ok(len as usize)
    }

    /// The wire form of the header.
    pub fn into_frozen(self) -> (bytes: FrozenBatchHeader)
        ensures
            bytes@ == header_bytes(self),
            bytes@.len() == COMMAND_HEADER_SIZE,
    {
        let mut out: Vec<u8> = Vec::with_capacity(COMMAND_HEADER_SIZE);
        push_le(&mut out, self.partition_id as u128, 8);
        push_le(&mut out, self.base_offset as u128, 8);
        push_le(&mut out, self.base_timestamp as u128, 8);
        push_le(&mut out, self.origin_timestamp as u128, 8);
        push_le(&mut out, self.batch_length as u128, 8);
        push_le(&mut out, self.batch_checksum as u128, 8);
        push_le(&mut out, self.message_count as u128, 4);
        push_le(&mut out, 0, 204);
        proof {
            lemma_header_layout(self);
            assert(out@ =~= header_bytes(self));
        }
        out
    }
}

/// Where each field lies in the wire form, and that it reads back.
pub proof fn lemma_header_layout(header: SendMessages2Header)
    ensures
        header_bytes(header).len() == COMMAND_HEADER_SIZE,
        le_at(header_bytes(header), 0, 8) == header.partition_id,
        le_at(header_bytes(header), 8, 8) == header.base_offset,
        le_at(header_bytes(header), 16, 8) == header.base_timestamp,
        le_at(header_bytes(header), 24, 8) == header.origin_timestamp,
        le_at(header_bytes(header), 32, 8) == header.batch_length,
        le_at(header_bytes(header), 40, 8) == header.batch_checksum,
        le_at(header_bytes(header), 48, 4) == header.message_count,
{
    crate::codec::lemma_le_limits();
    crate::codec::lemma_le_read_of_write(header.partition_id as nat, 8);
    crate::codec::lemma_le_read_of_write(header.base_offset as nat, 8);
    crate::codec::lemma_le_read_of_write(header.base_timestamp as nat, 8);
    crate::codec::lemma_le_read_of_write(header.origin_timestamp as nat, 8);
    crate::codec::lemma_le_read_of_write(header.batch_length as nat, 8);
    crate::codec::lemma_le_read_of_write(header.batch_checksum as nat, 8);
    crate::codec::lemma_le_read_of_write(header.message_count as nat, 4);
    crate::codec::lemma_le_bytes_len(0, 204);
    let bytes = header_bytes(header);
    assert(bytes.subrange(0, 8) =~= le_bytes(header.partition_id as nat, 8));
    assert(bytes.subrange(8, 16) =~= le_bytes(header.base_offset as nat, 8));
    assert(bytes.subrange(16, 24) =~= le_bytes(header.base_timestamp as nat, 8));
    assert(bytes.subrange(24, 32) =~= le_bytes(header.origin_timestamp as nat, 8));
    assert(bytes.subrange(32, 40) =~= le_bytes(header.batch_length as nat, 8));
    assert(bytes.subrange(40, 48) =~= le_bytes(header.batch_checksum as nat, 8));
    assert(bytes.subrange(48, 52) =~= le_bytes(header.message_count as nat, 4));
}

/// Decoding gives back every header that was encoded, whatever follows it,
/// where the batch is at least as long as its header.
pub proof fn law_header_round_trip(header: SendMessages2Header, rest: Seq<u8>)
    requires
        header.batch_length >= COMMAND_HEADER_SIZE,
    ensures
        decoded_header(header_bytes(header) + rest) == Some(header),
{
    lemma_header_layout(header);
    let bytes = header_bytes(header) + rest;
    let own = header_bytes(header);
    assert(bytes.subrange(0, 8) =~= own.subrange(0, 8));
    assert(bytes.subrange(8, 16) =~= own.subrange(8, 16));
    assert(bytes.subrange(16, 24) =~= own.subrange(16, 24));
    assert(bytes.subrange(24, 32) =~= own.subrange(24, 32));
    assert(bytes.subrange(32, 40) =~= own.subrange(32, 40));
    assert(bytes.subrange(40, 48) =~= own.subrange(40, 48));
    assert(bytes.subrange(48, 52) =~= own.subrange(48, 52));
}

} // verus!
