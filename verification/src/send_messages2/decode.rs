//! Batches read from requests, prepares and segment files.
use crate::codec::{lemma_le_limits, lemma_le_value_bound};
use crate::error::IggyError;
use crate::message::{Message, PrepareHeader, HEADER_SIZE};
use crate::send_messages2::batch::sealed;
use crate::send_messages2::checksum::{
    calculate_batch_checksum, verified_checksum, verify_and_recompute_batch_checksum,
};
use crate::send_messages2::frames::SendMessages2Ref;
use crate::send_messages2::header::{
    decoded_header, header_bytes, SendMessages2Header, COMMAND_HEADER_SIZE, PREPARE_SPLIT_POINT,
};
use vstd::prelude::*;

verus! {

/// The command header in front of `body` and the blob that it announces,
/// where both lie in `body`.
pub open spec fn split_batch(body: Seq<u8>) -> Option<(SendMessages2Header, Seq<u8>)> {
    match decoded_header(body) {
        Some(header) => if body.len() < header.batch_length {
            None
        } else {
            Some(
                (header, body.subrange(COMMAND_HEADER_SIZE as int, header.batch_length as int)),
            )
        },
        None => None,
    }
}

/// What is wrong with the checksums of a batch.
pub open spec fn checksum_error(header: SendMessages2Header, blob: Seq<u8>) -> Option<IggyError> {
    match verified_checksum(header, blob) {
        Ok(expected) => if header.batch_checksum == expected {
            None
        } else {
            Some(
                IggyError::InvalidBatchChecksum(
                    header.batch_checksum,
                    expected,
                    header.base_offset,
                ),
            )
        },
        Err(error) => Some(error),
    }
}

/// The batch in front of `body`: refused where it is cut off or where a
/// checksum does not hold.
pub open spec fn decoded_batch(body: Seq<u8>) -> Result<(SendMessages2Header, Seq<u8>), IggyError> {
    match split_batch(body) {
        None => Err(IggyError::InvalidCommand),
        Some((header, blob)) => match checksum_error(header, blob) {
            Some(error) => Err(error),
            None => Ok((header, blob)),
        },
    }
}

/// Whether `batch` is what `decoded` says.
pub open spec fn decodes_as(
    batch: Result<SendMessages2Ref<'_>, IggyError>,
    decoded: Result<(SendMessages2Header, Seq<u8>), IggyError>,
) -> bool {
    match decoded {
        Ok((header, blob)) => batch matches Ok(found) && found.header == header && found.blob@
            == blob,
        Err(error) => batch matches Err(found) && found == error,
    }
}

/// The body of a prepare: what its announced size covers behind its header.
/// `prepare` is the header as read from the first bytes, where they form one.
pub open spec fn prepare_body(bytes: Seq<u8>, prepare: Option<PrepareHeader>) -> Option<Seq<u8>> {
    match prepare {
        Some(header) => if HEADER_SIZE <= bytes.len() && HEADER_SIZE <= header.size
            <= bytes.len() {
            Some(bytes.subrange(HEADER_SIZE as int, header.size as int))
        } else {
            None
        },
        None => None,
    }
}

/// The batch of a prepare, without a look at its checksums.
pub open spec fn trusted_prepare(bytes: Seq<u8>, prepare: Option<PrepareHeader>) -> Result<
    (SendMessages2Header, Seq<u8>),
    IggyError,
> {
    match prepare_body(bytes, prepare) {
        Some(body) => match split_batch(body) {
            Some(batch) => Ok(batch),
            None => Err(IggyError::InvalidCommand),
        },
        None => Err(IggyError::InvalidCommand),
    }
}

/// The batch of a prepare with its checksums verified.
pub open spec fn validated_prepare(bytes: Seq<u8>, prepare: Option<PrepareHeader>) -> Result<
    (SendMessages2Header, Seq<u8>),
    IggyError,
> {
    match prepare_body(bytes, prepare) {
        Some(body) => decoded_batch(body),
        None => Err(IggyError::InvalidCommand),
    }
}

/// Decodes one batch, `[command header][blob]`, and validates the batch
/// checksum and every message checksum. A segment file's records and the
/// bodies of requests share this layout.
pub fn decode_batch_slice(body: &[u8]) -> (batch: Result<SendMessages2Ref<'_>, IggyError>)
    ensures
        decodes_as(batch, decoded_batch(body@)),
{
    let batch = split_batch_slice(body)?;
    validate_checksums(batch)
}

fn split_batch_slice(body: &[u8]) -> (batch: Result<SendMessages2Ref<'_>, IggyError>)
    ensures
        match split_batch(body@) {
            Some((header, blob)) => batch matches Ok(found) && found.header == header
                && found.blob@ == blob,
            None => batch matches Err(error) && error == IggyError::InvalidCommand,
        },
{
    let header = SendMessages2Header::decode(body)?;
    let len: usize = body.len();
    proof {
        lemma_le_limits();
        lemma_le_value_bound(body@.subrange(32, 40));
    }
    let blob_len: usize = header.blob_len()?;
    if blob_len > len - COMMAND_HEADER_SIZE {
        return Err(IggyError::InvalidCommand);
    }
    Ok(
        SendMessages2Ref {
            header,
            blob: &body[COMMAND_HEADER_SIZE..COMMAND_HEADER_SIZE + blob_len],
        },
    )
}

fn validate_checksums(batch: SendMessages2Ref<'_>) -> (validated: Result<
    SendMessages2Ref<'_>,
    IggyError,
>)
    ensures
        match checksum_error(batch.header, batch.blob@) {
            Some(error) => validated matches Err(found) && found == error,
            None => validated matches Ok(found) && found == batch,
        },
{
    let expected_checksum: u64 = verify_and_recompute_batch_checksum(&batch)?;
    if batch.header.batch_checksum != expected_checksum {
        return Err(
            IggyError::InvalidBatchChecksum(
                batch.header.batch_checksum,
                expected_checksum,
                batch.header.base_offset,
            ),
        );
    }
    Ok(batch)
}

/// Decodes the batch of a prepare and validates the batch checksum and every
/// message checksum.
///
/// `bytes` is the whole frame. `prepare` is its header as the caller read it
/// from the first bytes: none where they are misaligned or form no header.
pub fn decode_prepare_slice(bytes: &[u8], prepare: Option<PrepareHeader>) -> (batch: Result<
    SendMessages2Ref<'_>,
    IggyError,
>)
    ensures
        decodes_as(batch, validated_prepare(bytes@, prepare)),
{
    decode_prepare_slice_inner(bytes, prepare, true)
}

/// Decodes the batch of a prepare and validates no checksum.
///
/// The bytes must have been stamped on this node, or verified where they came
/// in: a damaged blob passes unnoticed. All checks of the structure are made.
pub fn decode_prepare_slice_trusted(
    bytes: &[u8],
    prepare: Option<PrepareHeader>,
) -> (batch: Result<SendMessages2Ref<'_>, IggyError>)
    ensures
        decodes_as(batch, trusted_prepare(bytes@, prepare)),
{
    decode_prepare_slice_inner(bytes, prepare, false)
}

fn decode_prepare_slice_inner(
    bytes: &[u8],
    prepare: Option<PrepareHeader>,
    validate_checksum: bool,
) -> (batch: Result<SendMessages2Ref<'_>, IggyError>)
    ensures
        validate_checksum ==> decodes_as(batch, validated_prepare(bytes@, prepare)),
        !validate_checksum ==> decodes_as(batch, trusted_prepare(bytes@, prepare)),
{
    if bytes.len() < HEADER_SIZE {
        return Err(IggyError::InvalidCommand);
    }
    let header = match prepare {
        Some(header) => header,
        None => return Err(IggyError::InvalidCommand),
    };
    let total_size: usize = header.size as usize;
    if total_size < HEADER_SIZE || bytes.len() < total_size {
        return Err(IggyError::InvalidCommand);
    }
    let batch = split_batch_slice(&bytes[HEADER_SIZE..total_size])?;
    if validate_checksum {
        validate_checksums(batch)
    } else {
        Ok(batch)
    }
}

/// Verifies every message checksum of a received prepare.
///
/// The stored batch checksum is not consulted: a prepare is received before it
/// is stamped, and the message checksums do not cover the command header.
pub fn verify_received_send_messages(
    bytes: &[u8],
    prepare: Option<PrepareHeader>,
) -> (verified: Result<(), IggyError>)
    ensures
        verified == (match trusted_prepare(bytes@, prepare) {
            Ok((header, blob)) => match verified_checksum(header, blob) {
                Ok(_) => Ok::<(), IggyError>(()),
                Err(error) => Err(error),
            },
            Err(error) => Err(error),
        }),
{
    let batch = decode_prepare_slice_trusted(bytes, prepare)?;
    verify_and_recompute_batch_checksum(&batch)?;
    Ok(())
}

/// The command header that a prepare with `body` and the announced `size` gets
/// when it is stamped.
pub open spec fn stamped_header(
    body: Seq<u8>,
    size: u32,
    base_offset: u64,
    base_timestamp: u64,
) -> Option<SendMessages2Header> {
    if HEADER_SIZE + body.len() < PREPARE_SPLIT_POINT || size < PREPARE_SPLIT_POINT {
        None
    } else {
        match decoded_header(body) {
            Some(header) => Some(
                sealed(
                    SendMessages2Header { base_offset, base_timestamp, ..header },
                    body.subrange(COMMAND_HEADER_SIZE as int, size - HEADER_SIZE),
                ),
            ),
            None => None,
        }
    }
}

/// Gives the batch of a prepare its place in the partition and the checksum
/// that goes with it. Returns the frame, its command header and the count of
/// its messages.
pub fn stamp_prepare_for_persistence(
    message: Message<PrepareHeader>,
    base_offset: u64,
    base_timestamp: u64,
) -> (stamped: Result<(Message<PrepareHeader>, SendMessages2Header, u32), IggyError>)
    requires
        message.wf(),
    ensures
        match stamped_header(message.body@, message.header.size, base_offset, base_timestamp) {
            Some(header) => {
                &&& stamped matches Ok((frame, command, count))
                &&& command == header
                &&& count == header.message_count
                &&& frame.header == message.header
                &&& frame.body@ == header_bytes(header) + message.body@.subrange(
                    COMMAND_HEADER_SIZE as int,
                    message.body@.len() as int,
                )
            },
            None => stamped matches Err(error) && error == IggyError::InvalidCommand,
        },
{
    let mut message = message;
    let total_size: usize = message.header.size as usize;
    if message.body.len() < PREPARE_SPLIT_POINT - HEADER_SIZE || total_size < PREPARE_SPLIT_POINT {
        return Err(IggyError::InvalidCommand);
    }
    let mut command = SendMessages2Header::decode(message.body.as_slice())?;
    command.base_offset = base_offset;
    command.base_timestamp = base_timestamp;
    command.batch_checksum = calculate_batch_checksum(
        &command,
        &message.body.as_slice()[COMMAND_HEADER_SIZE..total_size - HEADER_SIZE],
    );
    command.encode_into(message.body.as_mut_slice());
    Ok((message, command, command.message_count))
}

} // verus!
