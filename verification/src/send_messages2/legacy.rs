//! The older request layout, and its conversion into batches.
//!
//! `[metadata length: 4][metadata][message count: 4][index: 16 per message]`,
//! where the count is the last field of the metadata, then per message a
//! 64-byte header, the payload and the user headers.
use crate::codec::{le_at, read_u128, read_u32, read_u64};
use crate::error::IggyError;
use crate::message::{Message, RequestHeader, HEADER_SIZE};
use crate::namespace::IggyNamespace;
use crate::send_messages2::batch::{
    contents_of, earliest, lemma_error_stays, lemma_error_step, lemma_origin_bound,
    lemma_records_size, lemma_take_blob, origin_of, records_blob, records_error, records_size,
    sealed, settled_id, unsealed_header, Record, MAX_TIMESTAMP_DELTA_MICROS,
};
use crate::send_messages2::checksum::calculate_batch_checksum;
use crate::send_messages2::decode::{decode_batch_slice, decoded_batch};
use crate::send_messages2::encode::{blob_of, lemma_blob_size, push_frame};
use crate::send_messages2::header::{header_bytes, SendMessages2Header, COMMAND_HEADER_SIZE};
use vstd::prelude::*;

verus! {

/// Bytes of a message's header in the older layout.
pub const LEGACY_MESSAGE_HEADER_SIZE: usize = 64;

/// Bytes of a message's index entry in the older layout.
pub const INDEX_SIZE: usize = 16;

/// Whether the converted batch gets its batch checksum.
#[derive(Debug, Clone, Copy, PartialEq, Eq, Structural)]
pub enum ChecksumMode {
    /// Compute the batch checksum, for a reader that validates the batch
    /// before it is stamped.
    Compute,
    /// Leave the batch checksum zero until the batch is stamped.
    Skip,
}

/// The announced message count and the bytes of the messages.
pub open spec fn legacy_messages(body: Seq<u8>) -> Option<(u32, Seq<u8>)> {
    if body.len() < 4 {
        None
    } else {
        let metadata_end = 4 + le_at(body, 0, 4);
        if body.len() < metadata_end {
            None
        } else {
            let count = le_at(body, metadata_end - 4, 4);
            let start = metadata_end + count * INDEX_SIZE;
            if body.len() < start {
                None
            } else {
                Some((count as u32, body.subrange(start, body.len() as int)))
            }
        }
    }
}

/// The message that `bytes` begin with, in the older layout, and its size.
pub open spec fn legacy_record(bytes: Seq<u8>) -> Option<(Record, int)> {
    if bytes.len() < LEGACY_MESSAGE_HEADER_SIZE {
        None
    } else {
        let payload_end = LEGACY_MESSAGE_HEADER_SIZE + le_at(bytes, 52, 4);
        let size = payload_end + le_at(bytes, 48, 4);
        if bytes.len() < size {
            None
        } else {
            Some(
                (
                    Record {
                        id: le_at(bytes, 8, 16) as u128,
                        origin_timestamp: le_at(bytes, 40, 8) as u64,
                        payload: bytes.subrange(LEGACY_MESSAGE_HEADER_SIZE as int, payload_end),
                        user_headers: bytes.subrange(payload_end, size),
                    },
                    size,
                ),
            )
        }
    }
}

/// The `count` messages that `bytes` consist of, with nothing left over.
pub open spec fn legacy_records(bytes: Seq<u8>, count: nat) -> Option<Seq<Record>>
    decreases count,
{
    if count == 0 {
        if bytes.len() == 0 {
            Some(Seq::empty())
        } else {
            None
        }
    } else {
        match legacy_record(bytes) {
            Some((record, size)) => match legacy_records(
                bytes.subrange(size, bytes.len() as int),
                (count - 1) as nat,
            ) {
                Some(rest) => Some(seq![record] + rest),
                None => None,
            },
            None => None,
        }
    }
}

/// The messages of a request in the older layout.
pub open spec fn legacy_request(body: Seq<u8>) -> Option<Seq<Record>> {
    match legacy_messages(body) {
        Some((count, bytes)) => legacy_records(bytes, count as nat),
        None => None,
    }
}

/// `records` with a fresh id for each that has none.
pub open spec fn with_ids(records: Seq<Record>, fresh_ids: Seq<u128>) -> Seq<Record> {
    Seq::new(
        records.len(),
        |i: int| Record { id: settled_id(records[i].id, fresh_ids[i]), ..records[i] },
    )
}

/// The command header of a converted batch.
pub open spec fn converted_header(
    partition_id: u64,
    records: Seq<Record>,
    checksum: ChecksumMode,
) -> SendMessages2Header {
    match checksum {
        ChecksumMode::Compute => sealed(
            unsealed_header(partition_id, records),
            records_blob(records),
        ),
        ChecksumMode::Skip => unsealed_header(partition_id, records),
    }
}

/// What a request in the older layout is converted into: the request's header
/// with its new size, and the batch.
pub open spec fn converted_request(
    partition_id: u64,
    body: Seq<u8>,
    request_header: RequestHeader,
    checksum: ChecksumMode,
    fresh_ids: Seq<u128>,
) -> Result<(RequestHeader, Seq<u8>), IggyError> {
    match legacy_request(body) {
        None => Err(IggyError::InvalidCommand),
        Some(raw) => {
            let records = with_ids(raw, fresh_ids);
            let total_size = HEADER_SIZE + COMMAND_HEADER_SIZE + records_size(records);
            if total_size > u32::MAX {
                Err(IggyError::InvalidCommand)
            } else {
                match records_error(records, origin_of(records)) {
                    Some(error) => Err(error),
                    None => Ok(
                        (
                            RequestHeader { size: total_size as u32, ..request_header },
                            header_bytes(converted_header(partition_id, records, checksum))
                                + records_blob(records),
                        ),
                    ),
                }
            }
        },
    }
}

/// How many messages a request in the older layout announces; zero where it
/// announces none.
pub open spec fn announced(body: Seq<u8>) -> u32 {
    match legacy_messages(body) {
        Some((count, _)) => count,
        None => 0,
    }
}

/// How many fresh ids the conversion of `body` may take.
pub fn announced_messages(body: &[u8]) -> (count: u32)
    ensures
        count == announced(body@),
{
    match legacy_messages_slice(body) {
        Ok((count, _)) => count,
        Err(_) => 0,
    }
}

/// Converts a request in the older layout into a batch. A request that holds a
/// valid batch already is returned unchanged.
///
/// A message without an id takes the one of `fresh_ids` at its place.
pub fn convert_request_message(
    namespace: IggyNamespace,
    message: Message<RequestHeader>,
    checksum: ChecksumMode,
    fresh_ids: &[u128],
) -> (converted: Result<Message<RequestHeader>, IggyError>)
    requires
        message.wf(),
        fresh_ids@.len() >= announced(message.payload()),
    ensures
        decoded_batch(message.payload()) is Ok ==> converted == Ok::<_, IggyError>(message),
        decoded_batch(message.payload()) is Err ==> match converted_request(
            namespace.partition_id as u64,
            message.payload(),
            message.header,
            checksum,
            fresh_ids@,
        ) {
            Ok((header, body)) => {
                &&& converted matches Ok(frame)
                &&& frame.header == header
                &&& frame.body@ == body
                &&& frame.wf()
                &&& frame.payload() == body
            },
            Err(error) => converted matches Err(found) && found == error,
        },
{
    let body: &[u8] = message.request_body();
    if decode_batch_slice(body).is_ok() {
        return Ok(message);
    }
    transcode_legacy_request(namespace, body, message.header, checksum, fresh_ids)
}

/// A message in the older layout, borrowed from its request.
#[derive(Clone, Copy)]
struct LegacyMessageRef<'a> {
    id: u128,
    origin_timestamp: u64,
    user_headers: &'a [u8],
    payload: &'a [u8],
    total_size: usize,
}

impl<'a> LegacyMessageRef<'a> {
    spec fn record(self) -> Record {
        Record {
            id: self.id,
            origin_timestamp: self.origin_timestamp,
            payload: self.payload@,
            user_headers: self.user_headers@,
        }
    }

    fn decode(bytes: &'a [u8]) -> (message: Result<Self, IggyError>)
        ensures
            match legacy_record(bytes@) {
                Some((record, size)) => message matches Ok(found) && found.record() == record
                    && found.total_size == size,
                None => message matches Err(error) && error == IggyError::InvalidCommand,
            },
    {
        if bytes.len() < LEGACY_MESSAGE_HEADER_SIZE {
            return Err(IggyError::InvalidCommand);
        }
        let user_headers_length: u32 = read_u32(bytes, 48)?;
        let payload_length: u32 = read_u32(bytes, 52)?;
        let behind: usize = bytes.len() - LEGACY_MESSAGE_HEADER_SIZE;
        if (behind as u64) < payload_length as u64 + user_headers_length as u64 {
            return Err(IggyError::InvalidCommand);
        }
        let payload_end: usize = LEGACY_MESSAGE_HEADER_SIZE + payload_length as usize;
        let total_size: usize = payload_end + user_headers_length as usize;
        Ok(
            LegacyMessageRef {
                id: read_u128(bytes, 8)?,
                origin_timestamp: read_u64(bytes, 40)?,
                user_headers: &bytes[payload_end..total_size],
                payload: &bytes[LEGACY_MESSAGE_HEADER_SIZE..payload_end],
                total_size,
            },
        )
    }
}

fn legacy_messages_slice(body: &[u8]) -> (messages: Result<(u32, &[u8]), IggyError>)
    ensures
        match legacy_messages(body@) {
            Some((count, bytes)) => messages matches Ok(found) && found.0 == count && found.1@
                == bytes,
            None => messages matches Err(error) && error == IggyError::InvalidCommand,
        },
{
    if body.len() < 4 {
        return Err(IggyError::InvalidCommand);
    }
    let metadata_length: u64 = read_u32(body, 0)? as u64;
    let len: u64 = body.len() as u64;
    if len < 4 + metadata_length {
        return Err(IggyError::InvalidCommand);
    }
    let metadata_end: usize = 4 + metadata_length as usize;
    let message_count: u32 = read_u32(body, metadata_end - 4)?;
    let indexes_len: u64 = message_count as u64 * 16;
    if len - (metadata_end as u64) < indexes_len {
        return Err(IggyError::InvalidCommand);
    }
    let messages_start: usize = metadata_end + indexes_len as usize;
    Ok((message_count, &body[messages_start..body.len()]))
}

spec fn records_of_refs(messages: Seq<LegacyMessageRef<'_>>) -> Seq<Record> {
    Seq::new(messages.len(), |i: int| messages[i].record())
}

/// The messages of a request in the older layout.
fn parse_legacy_request(body: &[u8]) -> (messages: Result<Vec<LegacyMessageRef<'_>>, IggyError>)
    ensures
        match legacy_request(body@) {
            Some(records) => messages matches Ok(found) && records_of_refs(found@) == records,
            None => messages matches Err(error) && error == IggyError::InvalidCommand,
        },
{
    let (message_count, messages): (u32, &[u8]) = legacy_messages_slice(body)?;
    let mut parsed: Vec<LegacyMessageRef<'_>> = Vec::with_capacity(message_count as usize);
    let mut cursor: usize = 0;
    proof {
        let rest = messages@.subrange(0, messages@.len() as int);
        assert(rest =~= messages@);
        match legacy_records(rest, message_count as nat) {
            Some(records) => {
                assert(records_of_refs(parsed@) + records =~= records);
            },
            None => {},
        }
    }
    while cursor < messages.len() && (parsed.len() as u64) < message_count as u64
        invariant
            legacy_messages(body@) == Some((message_count, messages@)),
            cursor <= messages@.len(),
            parsed@.len() <= message_count,
            legacy_records(messages@, message_count as nat) == (match legacy_records(
                messages@.subrange(cursor as int, messages@.len() as int),
                (message_count - parsed@.len()) as nat,
            ) {
                Some(rest) => Some(records_of_refs(parsed@) + rest),
                None => None::<Seq<Record>>,
            }),
        decreases message_count - parsed@.len(),
    {
        let ghost rest = messages@.subrange(cursor as int, messages@.len() as int);
        let ghost before = parsed@;
        let remaining: &[u8] = &messages[cursor..messages.len()];
        assert(remaining@ == rest);
        let legacy = LegacyMessageRef::decode(remaining)?;
        cursor = cursor + legacy.total_size;
        parsed.push(legacy);
        proof {
            let after = messages@.subrange(cursor as int, messages@.len() as int);
            assert(rest.subrange(legacy.total_size as int, rest.len() as int) =~= after);
            match legacy_records(after, (message_count - parsed@.len()) as nat) {
                Some(records) => {
                    assert(records_of_refs(before) + (seq![legacy.record()] + records)
                        =~= records_of_refs(parsed@) + records);
                },
                None => {},
            }
        }
    }
    if parsed.len() as u64 != message_count as u64 || cursor != messages.len() {
        return Err(IggyError::InvalidCommand);
    }
    assert(records_of_refs(parsed@) + Seq::<Record>::empty() =~= records_of_refs(parsed@));
    Ok(parsed)
}

/// The records of `messages`, each with its id settled.
spec fn settled_records(messages: Seq<LegacyMessageRef<'_>>, fresh_ids: Seq<u128>) -> Seq<Record> {
    with_ids(records_of_refs(messages), fresh_ids)
}

/// Converts the body of a request in the older layout into a batch behind
/// `request_header`.
///
/// A message without an id takes the one of `fresh_ids` at its place.
pub fn transcode_legacy_request(
    namespace: IggyNamespace,
    body: &[u8],
    request_header: RequestHeader,
    checksum: ChecksumMode,
    fresh_ids: &[u128],
) -> (converted: Result<Message<RequestHeader>, IggyError>)
    requires
        fresh_ids@.len() >= announced(body@),
    ensures
        match converted_request(
            namespace.partition_id as u64,
            body@,
            request_header,
            checksum,
            fresh_ids@,
        ) {
            Ok((header, bytes)) => {
                &&& converted matches Ok(frame)
                &&& frame.header == header
                &&& frame.body@ == bytes
                &&& frame.wf()
                &&& frame.payload() == bytes
            },
            Err(error) => converted matches Err(found) && found == error,
        },
{
    let size: usize = body.len();
    assert(size <= u64::MAX);
    let parsed = parse_legacy_request(body)?;
    let ghost records = settled_records(parsed@, fresh_ids@);
    proof {
        lemma_record_count(body@);
    }
    let (origin_timestamp, blob_len): (u64, u64) = measure(parsed.as_slice(), fresh_ids);
    let origin_timestamp: u64 = if origin_timestamp == u64::MAX {
        0
    } else {
        origin_timestamp
    };
    if blob_len > 0xffff_ffff - 512 {
        return Err(IggyError::InvalidCommand);
    }
    let blob = frame_records(parsed.as_slice(), fresh_ids, origin_timestamp)?;
    proof {
        lemma_records_size(records, origin_timestamp);
        lemma_blob_size(contents_of(records, origin_timestamp));
    }
    let mut command = SendMessages2Header::new(
        namespace.partition_id as u64,
        origin_timestamp,
        256 + blob_len,
        parsed.len() as u32,
    );
    if checksum == ChecksumMode::Compute {
        command.batch_checksum = calculate_batch_checksum(&command, blob.as_slice());
    }
    let mut header: RequestHeader = request_header;
    header.size = (512 + blob_len) as u32;
    let mut bytes: Vec<u8> = command.into_frozen();
    bytes.extend_from_slice(blob.as_slice());
    assert(bytes@ =~= header_bytes(command) + blob@);
    assert(bytes@.subrange(0, header.size - HEADER_SIZE) =~= bytes@);
    Ok(Message { header, body: bytes })
}

/// A parsed request holds as many messages as it announces, and they are no
/// longer in the new layout than the request.
proof fn lemma_record_count(body: Seq<u8>)
    ensures
        legacy_request(body) matches Some(records) ==> {
            &&& records.len() == announced(body)
            &&& records_size(records) <= body.len()
        },
{
    match legacy_messages(body) {
        Some((count, bytes)) => lemma_records_count(bytes, count as nat),
        None => {},
    }
}

proof fn lemma_records_count(bytes: Seq<u8>, count: nat)
    ensures
        legacy_records(bytes, count) matches Some(records) ==> {
            &&& records.len() == count
            &&& records_size(records) <= bytes.len()
        },
    decreases count,
{
    if count > 0 {
        match legacy_record(bytes) {
            Some((record, size)) => {
                let after = bytes.subrange(size, bytes.len() as int);
                lemma_records_count(after, (count - 1) as nat);
                match legacy_records(after, (count - 1) as nat) {
                    Some(rest) => lemma_size_of_front(record, rest),
                    None => {},
                }
            },
            None => {},
        }
    }
}

proof fn lemma_size_of_front(record: Record, rest: Seq<Record>)
    ensures
        records_size(seq![record] + rest) == 48 + record.payload.len() + record.user_headers.len()
            + records_size(rest),
    decreases rest.len(),
{
    let all = seq![record] + rest;
    reveal_with_fuel(records_size, 2);
    if rest.len() == 0 {
        assert(all =~= seq![record]);
        assert(all.drop_last() =~= Seq::empty());
    } else {
        assert(all.last() == rest.last());
        lemma_size_of_front(record, rest.drop_last());
        assert(all.drop_last() =~= seq![record] + rest.drop_last());
    }
}

/// Fresh ids change no size.
proof fn lemma_size_of_settled(records: Seq<Record>, fresh_ids: Seq<u128>)
    ensures
        records_size(with_ids(records, fresh_ids)) == records_size(records),
    decreases records.len(),
{
    if records.len() > 0 {
        lemma_size_of_settled(records.drop_last(), fresh_ids);
        assert(with_ids(records, fresh_ids).drop_last() =~= with_ids(
            records.drop_last(),
            fresh_ids,
        ));
    }
}

/// The earliest origin timestamp of `messages` and the bytes of their frames.
fn measure(messages: &[LegacyMessageRef<'_>], fresh_ids: &[u128]) -> (measured: (u64, u64))
    requires
        records_size(records_of_refs(messages@)) <= u64::MAX,
    ensures
        measured.0 == earliest(settled_records(messages@, fresh_ids@)),
        measured.1 == records_size(settled_records(messages@, fresh_ids@)),
{
    let ghost records = settled_records(messages@, fresh_ids@);
    proof {
        lemma_size_of_settled(records_of_refs(messages@), fresh_ids@);
    }
    let mut origin_timestamp: u64 = u64::MAX;
    let mut blob_len: u64 = 0;
    let mut index: usize = 0;
    assert(records.take(0) =~= Seq::empty());
    while index < messages.len()
        invariant
            index <= messages@.len(),
            records == settled_records(messages@, fresh_ids@),
            records_size(records) <= u64::MAX,
            origin_timestamp == earliest(records.take(index as int)),
            blob_len == records_size(records.take(index as int)),
        decreases messages@.len() - index,
    {
        let legacy: &LegacyMessageRef<'_> = &messages[index];
        proof {
            assert(records.take(index + 1).drop_last() =~= records.take(index as int));
            lemma_size_of_take(records, index + 1);
        }
        if legacy.origin_timestamp < origin_timestamp {
            origin_timestamp = legacy.origin_timestamp;
        }
        blob_len = blob_len + 48 + legacy.payload.len() as u64 + legacy.user_headers.len() as u64;
        index = index + 1;
    }
    assert(records.take(index as int) =~= records);
    (origin_timestamp, blob_len)
}

proof fn lemma_size_of_take(records: Seq<Record>, i: int)
    requires
        0 <= i <= records.len(),
    ensures
        records_size(records.take(i)) <= records_size(records),
    decreases records.len() - i,
{
    if i == records.len() {
        assert(records.take(i) =~= records);
    } else {
        lemma_size_of_take(records, i + 1);
        assert(records.take(i + 1).drop_last() =~= records.take(i));
    }
}

/// Frames `messages` one after the other.
fn frame_records(
    messages: &[LegacyMessageRef<'_>],
    fresh_ids: &[u128],
    origin_timestamp: u64,
) -> (blob: Result<Vec<u8>, IggyError>)
    requires
        fresh_ids@.len() >= messages@.len(),
        origin_timestamp == origin_of(settled_records(messages@, fresh_ids@)),
    ensures
        ({
            let records = settled_records(messages@, fresh_ids@);
            match records_error(records, origin_timestamp) {
                Some(error) => blob matches Err(found) && found == error,
                None => blob matches Ok(bytes) && bytes@ == records_blob(records),
            }
        }),
{
    let ghost records = settled_records(messages@, fresh_ids@);
    let ghost contents = contents_of(records, origin_timestamp);
    let mut bytes: Vec<u8> = Vec::new();
    let mut index: usize = 0;
    assert(records.take(0) =~= Seq::empty());
    assert(contents.take(0) =~= Seq::empty());
    while index < messages.len()
        invariant
            index <= messages@.len(),
            fresh_ids@.len() >= messages@.len(),
            records == settled_records(messages@, fresh_ids@),
            origin_timestamp == origin_of(records),
            contents == contents_of(records, origin_timestamp),
            records_error(records.take(index as int), origin_timestamp) is None,
            bytes@ == blob_of(contents.take(index as int)),
        decreases messages@.len() - index,
    {
        let legacy: &LegacyMessageRef<'_> = &messages[index];
        let ghost record = records[index as int];
        proof {
            lemma_error_step(records, origin_timestamp, index as int);
            lemma_error_stays(records, origin_timestamp, index + 1);
            lemma_origin_bound(records, index as int);
            lemma_take_blob(contents, index as int);
        }
        let id: u128 = if legacy.id == 0 {
            fresh_ids[index]
        } else {
            legacy.id
        };
        if index > u32::MAX as usize {
            return Err(IggyError::InvalidCommand);
        }
        let timestamp_delta: u64 = legacy.origin_timestamp - origin_timestamp;
        if timestamp_delta > MAX_TIMESTAMP_DELTA_MICROS {
            return Err(IggyError::InvalidMessageTimestampDelta(timestamp_delta));
        }
        if legacy.user_headers.len() > u32::MAX as usize {
            return Err(IggyError::InvalidCommand);
        }
        if legacy.payload.len() > u32::MAX as usize {
            return Err(IggyError::InvalidCommand);
        }
        push_frame(
            &mut bytes,
            id,
            index as u32,
            timestamp_delta as u32,
            legacy.payload,
            legacy.user_headers,
        );
        index = index + 1;
    }
    assert(records.take(index as int) =~= records);
    assert(contents.take(index as int) =~= contents);
    Ok(bytes)
}

} // verus!
