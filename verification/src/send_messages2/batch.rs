//! Batches built from messages.
use crate::buffers::{
    bytes_as_slice, bytes_mut_extend, bytes_mut_freeze, bytes_mut_new, bytes_mut_of, bytes_of,
};
use crate::error::IggyError;
use crate::message::{Message, RequestHeader, HEADER_SIZE};
use crate::namespace::IggyNamespace;
use crate::send_messages2::checksum::{batch_checksum, calculate_batch_checksum};
use crate::send_messages2::encode::{
    all_fit, blob_of, blob_size, lemma_blob_size, push_frame, Content,
};
use crate::send_messages2::frames::MESSAGE_HEADER_SIZE;
use crate::send_messages2::header::{
    fresh_header, header_bytes, SendMessages2Header, COMMAND_HEADER_SIZE,
};
use crate::send_messages2::messages::{count_of, IggyMessage2, IggyMessages2};
use bytes::{Bytes, BytesMut};
use vstd::prelude::*;

verus! {

/// The largest distance of a message from its batch's origin timestamp.
pub const MAX_TIMESTAMP_DELTA_MICROS: u64 = 0xffff_ffff;

/// A message as a batch takes it in.
pub ghost struct Record {
    pub id: u128,
    pub origin_timestamp: u64,
    pub payload: Seq<u8>,
    pub user_headers: Seq<u8>,
}

/// The id under which a message with id `own` travels: its own, or the fresh
/// one where it has none.
pub open spec fn settled_id(own: u128, fresh: u128) -> u128 {
    if own == 0 {
        fresh
    } else {
        own
    }
}

/// What the batch takes in of `message`.
pub open spec fn record_of(message: IggyMessage2, fresh_id: u128) -> Record {
    Record {
        id: settled_id(message.header.id, fresh_id),
        origin_timestamp: message.header.origin_timestamp,
        payload: message.payload_bytes(),
        user_headers: message.user_header_bytes(),
    }
}

/// What the batch takes in of `messages`, each with the fresh id at its place.
pub open spec fn records_of(messages: Seq<IggyMessage2>, fresh_ids: Seq<u128>) -> Seq<Record> {
    Seq::new(messages.len(), |i: int| record_of(messages[i], fresh_ids[i]))
}

/// The earliest origin timestamp; the largest number where there is no record.
pub open spec fn earliest(records: Seq<Record>) -> u64
    decreases records.len(),
{
    if records.len() == 0 {
        u64::MAX
    } else if records.last().origin_timestamp < earliest(records.drop_last()) {
        records.last().origin_timestamp
    } else {
        earliest(records.drop_last())
    }
}

/// The origin timestamp of a batch: the earliest of its records, with the
/// largest number read as zero.
pub open spec fn origin_of(records: Seq<Record>) -> u64 {
    if earliest(records) == u64::MAX {
        0
    } else {
        earliest(records)
    }
}

/// Why the record at `index` cannot be framed.
pub open spec fn record_error(record: Record, index: int, origin: u64) -> Option<IggyError> {
    if index > u32::MAX {
        Some(IggyError::InvalidCommand)
    } else if record.origin_timestamp < origin {
        Some(IggyError::InvalidCommand)
    } else if record.origin_timestamp - origin > MAX_TIMESTAMP_DELTA_MICROS {
        Some(
            IggyError::InvalidMessageTimestampDelta((record.origin_timestamp - origin) as u64),
        )
    } else if record.user_headers.len() > u32::MAX || record.payload.len() > u32::MAX {
        Some(IggyError::InvalidCommand)
    } else {
        None
    }
}

/// Why `records` cannot be framed: what is wrong with the first that cannot.
pub open spec fn records_error(records: Seq<Record>, origin: u64) -> Option<IggyError>
    decreases records.len(),
{
    if records.len() == 0 {
        None
    } else {
        match records_error(records.drop_last(), origin) {
            Some(error) => Some(error),
            None => record_error(records.last(), records.len() - 1, origin),
        }
    }
}

/// What the frame of the record at `index` holds.
pub open spec fn content_of(record: Record, index: int, origin: u64) -> Content {
    Content {
        id: record.id,
        offset_delta: index as u32,
        timestamp_delta: (record.origin_timestamp - origin) as u32,
        payload: record.payload,
        user_headers: record.user_headers,
    }
}

/// What the frames of `records` hold.
pub open spec fn contents_of(records: Seq<Record>, origin: u64) -> Seq<Content> {
    Seq::new(records.len(), |i: int| content_of(records[i], i, origin))
}

/// The blob that frames `records`.
pub open spec fn records_blob(records: Seq<Record>) -> Seq<u8> {
    blob_of(contents_of(records, origin_of(records)))
}

/// Bytes of the blob that frames `records`.
pub open spec fn records_size(records: Seq<Record>) -> int
    decreases records.len(),
{
    if records.len() == 0 {
        0
    } else {
        records_size(records.drop_last()) + MESSAGE_HEADER_SIZE + records.last().payload.len()
            + records.last().user_headers.len()
    }
}

pub(crate) proof fn lemma_records_size(records: Seq<Record>, origin: u64)
    ensures
        blob_size(contents_of(records, origin)) == records_size(records),
        records_size(records) >= MESSAGE_HEADER_SIZE * records.len(),
    decreases records.len(),
{
    if records.len() > 0 {
        lemma_records_size(records.drop_last(), origin);
        assert(contents_of(records, origin).drop_last() =~= contents_of(
            records.drop_last(),
            origin,
        ));
    }
}

/// The command header in front of the blob of `records`, without a checksum.
pub open spec fn unsealed_header(partition_id: u64, records: Seq<Record>) -> SendMessages2Header {
    fresh_header(
        partition_id,
        origin_of(records),
        (COMMAND_HEADER_SIZE + records_size(records)) as u64,
        count_of(records.len()),
    )
}

/// `header` with the batch checksum that it has in front of `blob`.
pub open spec fn sealed(header: SendMessages2Header, blob: Seq<u8>) -> SendMessages2Header {
    SendMessages2Header { batch_checksum: batch_checksum(header, blob), ..header }
}

/// The command header in front of the blob of `records`.
pub open spec fn records_header(partition_id: u64, records: Seq<Record>) -> SendMessages2Header {
    sealed(unsealed_header(partition_id, records), records_blob(records))
}

/// A batch that owns its blob.
#[derive(Debug)]
pub struct SendMessages2Owned {
    pub header: SendMessages2Header,
    pub blob: Bytes,
}

impl Clone for SendMessages2Owned {
    fn clone(&self) -> (copy: Self)
        ensures
            copy.header == self.header,
            bytes_of(copy.blob) == bytes_of(self.blob),
    {
        SendMessages2Owned { header: self.header, blob: self.blob.clone() }
    }
}

impl SendMessages2Owned {
    /// The header announces the blob, and both fit into memory.
    pub open spec fn wf(self) -> bool {
        self.header.batch_length == COMMAND_HEADER_SIZE + bytes_of(self.blob).len()
            <= isize::MAX
    }

    /// Frames `messages` into a batch for the partition of `namespace`.
    ///
    /// A message without an id takes the one of `fresh_ids` at its place. The
    /// first message that cannot be framed decides the error.
    pub fn from_messages(
        namespace: IggyNamespace,
        messages: &IggyMessages2,
        fresh_ids: &[u128],
    ) -> (batch: Result<Self, IggyError>)
        requires
            fresh_ids@.len() >= messages@.len(),
            COMMAND_HEADER_SIZE + records_size(records_of(messages@, fresh_ids@)) <= isize::MAX,
        ensures
            ({
                let records = records_of(messages@, fresh_ids@);
                match records_error(records, origin_of(records)) {
                    Some(error) => batch matches Err(found) && found == error,
                    None => {
                        &&& batch matches Ok(owned)
                        &&& owned.header == records_header(namespace.partition_id as u64, records)
                        &&& bytes_of(owned.blob) == records_blob(records)
                        &&& owned.wf()
                    },
                }
            }),
    {
        let ghost records = records_of(messages@, fresh_ids@);
        let slice: &[IggyMessage2] = messages.as_slice();
        let origin_timestamp: u64 = earliest_of(slice, fresh_ids);
        let origin_timestamp: u64 = if origin_timestamp == u64::MAX {
            0
        } else {
            origin_timestamp
        };
        let ghost contents = contents_of(records, origin_timestamp);
        proof {
            lemma_records_size(records, origin_timestamp);
        }
        let mut blob: BytesMut = bytes_mut_new();
        let mut index: usize = 0;
        assert(records.take(0) =~= Seq::empty());
        assert(contents.take(0) =~= Seq::empty());
        while index < slice.len()
            invariant
                index <= slice@.len(),
                slice@ == messages@,
                records == records_of(messages@, fresh_ids@),
                origin_timestamp == origin_of(records),
                contents == contents_of(records, origin_timestamp),
                fresh_ids@.len() >= messages@.len(),
                COMMAND_HEADER_SIZE + blob_size(contents) <= isize::MAX,
                records_error(records.take(index as int), origin_timestamp) is None,
                bytes_mut_of(blob) == blob_of(contents.take(index as int)),
            decreases slice@.len() - index,
        {
            let message: &IggyMessage2 = &slice[index];
            let ghost record = records[index as int];
            proof {
                assert(record == record_of(*message, fresh_ids@[index as int]));
                lemma_error_step(records, origin_timestamp, index as int);
                lemma_error_stays(records, origin_timestamp, index + 1);
                lemma_origin_bound(records, index as int);
                lemma_take_blob(contents, index as int);
            }
            let id: u128 = if message.header.id == 0 {
                fresh_ids[index]
            } else {
                message.header.id
            };
            if index > u32::MAX as usize {
                return Err(IggyError::InvalidCommand);
            }
            let timestamp_delta: u64 = message.header.origin_timestamp - origin_timestamp;
            if timestamp_delta > MAX_TIMESTAMP_DELTA_MICROS {
                return Err(IggyError::InvalidMessageTimestampDelta(timestamp_delta));
            }
            let user_headers: &[u8] = message.user_headers_slice();
            if user_headers.len() > u32::MAX as usize {
                return Err(IggyError::InvalidCommand);
            }
            let payload: &[u8] = message.payload_slice();
            if payload.len() > u32::MAX as usize {
                return Err(IggyError::InvalidCommand);
            }
            let mut frame: Vec<u8> = Vec::new();
            push_frame(
                &mut frame,
                id,
                index as u32,
                timestamp_delta as u32,
                payload,
                user_headers,
            );
            assert(frame@ =~= contents[index as int].frame());
            bytes_mut_extend(&mut blob, frame.as_slice());
            index = index + 1;
        }
        assert(records.take(index as int) =~= records);
        assert(contents.take(index as int) =~= contents);
        let blob: Bytes = bytes_mut_freeze(blob);
        let blob_bytes: &[u8] = bytes_as_slice(&blob);
        proof {
            lemma_blob_size(contents);
        }
        let mut header = SendMessages2Header::new(
            namespace.partition_id as u64,
            origin_timestamp,
            (COMMAND_HEADER_SIZE + blob_bytes.len()) as u64,
            messages.count(),
        );
        header.batch_checksum = calculate_batch_checksum(&header, blob_bytes);
        Ok(SendMessages2Owned { header, blob })
    }

    /// Puts the batch behind `request_header`, whose size is restated for it.
    /// Bytes that the header announces beyond the blob are zero. A batch that
    /// is too long for the size field is refused.
    pub fn encode_request(self, request_header: RequestHeader) -> (message: Result<
        Message<RequestHeader>,
        IggyError,
    >)
        requires
            HEADER_SIZE + self.header.batch_length <= usize::MAX,
            HEADER_SIZE + self.header.batch_length <= u32::MAX ==> self.header.batch_length
                >= COMMAND_HEADER_SIZE + bytes_of(self.blob).len(),
        ensures
            match request_of(request_header, self.header, bytes_of(self.blob)) {
                Some((header, body)) => {
                    &&& message matches Ok(encoded)
                    &&& encoded.header == header
                    &&& encoded.body@ == body
                    &&& encoded.wf()
                    &&& encoded.payload() == body
                },
                None => message == Err::<Message<RequestHeader>, _>(IggyError::InvalidCommand),
            },
    {
        let total_size: usize = HEADER_SIZE + self.header.total_size();
        if total_size > u32::MAX as usize {
            return Err(IggyError::InvalidCommand);
        }
        let mut header: RequestHeader = request_header;
        header.size = total_size as u32;
        let mut body: Vec<u8> = self.header.into_frozen();
        body.extend_from_slice(bytes_as_slice(&self.blob));
        assert(body@ =~= header_bytes(self.header) + bytes_of(self.blob));
        body.resize(total_size - HEADER_SIZE, 0);
        assert(body@ =~= padded(
            header_bytes(self.header) + bytes_of(self.blob),
            self.header.batch_length as int,
        ));
        assert(body@.subrange(0, header.size - HEADER_SIZE) =~= body@);
        Ok(Message { header, body })
    }
}

/// `bytes` with zero bytes behind them, `len` in all.
pub open spec fn padded(bytes: Seq<u8>, len: int) -> Seq<u8> {
    Seq::new(
        len as nat,
        |i: int|
            if i < bytes.len() {
                bytes[i]
            } else {
                0
            },
    )
}

/// The request frame of a batch: `request_header` with the size of the whole,
/// then the command header and the blob, filled up with zero bytes to the
/// length that the command header announces. There is none where the size
/// does not fit its field.
pub open spec fn request_of(
    request_header: RequestHeader,
    header: SendMessages2Header,
    blob: Seq<u8>,
) -> Option<(RequestHeader, Seq<u8>)> {
    let total_size = HEADER_SIZE + header.batch_length;
    if total_size > u32::MAX {
        None
    } else {
        Some(
            (
                RequestHeader { size: total_size as u32, ..request_header },
                padded(header_bytes(header) + blob, header.batch_length as int),
            ),
        )
    }
}

fn earliest_of(messages: &[IggyMessage2], fresh_ids: &[u128]) -> (timestamp: u64)
    ensures
        timestamp == earliest(records_of(messages@, fresh_ids@)),
{
    let ghost records = records_of(messages@, fresh_ids@);
    let mut timestamp: u64 = u64::MAX;
    let mut index: usize = 0;
    assert(records.take(0) =~= Seq::empty());
    while index < messages.len()
        invariant
            index <= messages@.len(),
            records == records_of(messages@, fresh_ids@),
            timestamp == earliest(records.take(index as int)),
        decreases messages@.len() - index,
    {
        assert(records.take(index + 1).drop_last() =~= records.take(index as int));
        if messages[index].header.origin_timestamp < timestamp {
            timestamp = messages[index].header.origin_timestamp;
        }
        index = index + 1;
    }
    assert(records.take(index as int) =~= records);
    timestamp
}

/// The first records fail exactly where the ones before fail or the last does.
pub(crate) proof fn lemma_error_step(records: Seq<Record>, origin: u64, i: int)
    requires
        0 <= i < records.len(),
    ensures
        records_error(records.take(i + 1), origin) == (match records_error(
            records.take(i),
            origin,
        ) {
            Some(error) => Some(error),
            None => record_error(records[i], i, origin),
        }),
{
    assert(records.take(i + 1).drop_last() =~= records.take(i));
}

/// An error of the first records is the error of all.
pub(crate) proof fn lemma_error_stays(records: Seq<Record>, origin: u64, i: int)
    requires
        0 <= i <= records.len(),
    ensures
        records_error(records.take(i), origin) is Some ==> records_error(records, origin)
            == records_error(records.take(i), origin),
    decreases records.len() - i,
{
    if i == records.len() {
        assert(records.take(i) =~= records);
    } else {
        lemma_error_step(records, origin, i);
        lemma_error_stays(records, origin, i + 1);
    }
}

/// No record lies before the origin.
pub(crate) proof fn lemma_origin_bound(records: Seq<Record>, i: int)
    requires
        0 <= i < records.len(),
    ensures
        origin_of(records) <= earliest(records),
        earliest(records) <= records[i].origin_timestamp,
    decreases records.len(),
{
    if i < records.len() - 1 {
        lemma_origin_bound(records.drop_last(), i);
    }
}

/// The blob of the first contents grows by one frame and stays in its bound.
pub(crate) proof fn lemma_take_blob(contents: Seq<Content>, i: int)
    requires
        0 <= i < contents.len(),
    ensures
        blob_of(contents.take(i + 1)) == blob_of(contents.take(i)) + contents[i].frame(),
        blob_of(contents.take(i)).len() + contents[i].frame().len() <= blob_size(contents),
{
    assert(contents.take(i + 1).drop_last() =~= contents.take(i));
    lemma_blob_size(contents.take(i + 1));
    lemma_size_monotonic(contents, i + 1);
}

proof fn lemma_size_monotonic(contents: Seq<Content>, i: int)
    requires
        0 <= i <= contents.len(),
    ensures
        blob_size(contents.take(i)) <= blob_size(contents),
    decreases contents.len() - i,
{
    if i == contents.len() {
        assert(contents.take(i) =~= contents);
    } else {
        lemma_size_monotonic(contents, i + 1);
        assert(contents.take(i + 1).drop_last() =~= contents.take(i));
    }
}

/// Records that can be framed fit their frames.
pub(crate) proof fn lemma_contents_fit(records: Seq<Record>, origin: u64)
    requires
        records_error(records, origin) is None,
    ensures
        all_fit(contents_of(records, origin)),
    decreases records.len(),
{
    if records.len() > 0 {
        let shorter = records.drop_last();
        lemma_contents_fit(shorter, origin);
        let contents = contents_of(records, origin);
        assert forall|i: int| 0 <= i < contents.len() implies (#[trigger] contents[i]).fits() by {
            if i < shorter.len() {
                assert(contents_of(shorter, origin)[i].fits());
                assert(contents[i] == contents_of(shorter, origin)[i]);
            }
        }
    }
}

} // verus!
