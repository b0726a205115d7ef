//! What a reader finds in batches that were built, converted, encrypted or
//! stamped, told message by message from what went in.
use crate::buffers::bytes_of;
use crate::codec::{le_at, le_bytes, lemma_le_bytes_len, lemma_le_limits, lemma_le_read_of_write};
use crate::error::IggyError;
use crate::message::{Message, RequestHeader};
use crate::send_messages2::batch::{
    earliest, lemma_error_stays, lemma_error_step, lemma_origin_bound, lemma_records_size,
    origin_of, records_blob, records_error, records_header, records_of, records_size, sealed,
    unsealed_header, Record,
};
use crate::send_messages2::checksum::batch_checksum;
use crate::send_messages2::decode::{decoded_batch, decodes_as, stamped_header};
use crate::send_messages2::encode::{
    blob_of, blob_size, frame_of_content, lemma_blob_round_trip, lemma_blob_size,
    lemma_frame_found, Content,
};
use crate::send_messages2::encrypt::{
    encrypted_content, encrypted_contents, encrypted_header, encrypted_request, encrypted_size,
    encryption_error, encryption_errors, encrypts_as, lemma_encrypted_size_monotonic, lists_parts,
    EncryptedParts, MessageParts,
};
use crate::send_messages2::frames::{covered, frames, Frame, SendMessages2Ref};
use crate::send_messages2::header::{
    decoded_header, header_bytes, lemma_header_layout, SendMessages2Header,
};
use crate::send_messages2::laws::{
    frame_shows_record, law_built_batch_decodes, law_encrypted_batch_decodes,
    lemma_encrypted_fit, lemma_no_record_error,
};
use crate::send_messages2::layout::law_request_frame_holds_the_batch;
use crate::send_messages2::legacy::{
    announced, converted_request, legacy_messages, legacy_record, legacy_records, legacy_request,
    with_ids, ChecksumMode,
};
use crate::send_messages2::messages::IggyMessage2;
use vstd::prelude::*;

verus! {

/// Whether the 64 bytes of `head` introduce `message` in the older layout: the
/// id from byte 8 on, the origin timestamp from 40, and the lengths of the user
/// headers from 48 and of the payload from 52. The other bytes are free.
pub open spec fn older_head(head: Seq<u8>, message: Record) -> bool {
    &&& head.len() == 64
    &&& le_at(head, 8, 16) == message.id
    &&& le_at(head, 40, 8) == message.origin_timestamp
    &&& le_at(head, 48, 4) == message.user_headers.len()
    &&& le_at(head, 52, 4) == message.payload.len()
}

/// Messages in the older layout: of each its head, its payload and its user
/// headers, one message behind the other.
pub open spec fn older_messages(heads: Seq<Seq<u8>>, messages: Seq<Record>) -> Seq<u8>
    decreases messages.len(),
{
    if messages.len() == 0 {
        Seq::empty()
    } else {
        heads[0] + messages[0].payload + messages[0].user_headers + older_messages(
            heads.drop_first(),
            messages.drop_first(),
        )
    }
}

/// Whether `body` is a request that carries `messages` in the older layout: the
/// length of the metadata in four bytes, `metadata`, the message count in four
/// bytes as the metadata's end, sixteen bytes of index for every message, and
/// the messages.
pub open spec fn older_request(
    body: Seq<u8>,
    metadata: Seq<u8>,
    index: Seq<u8>,
    heads: Seq<Seq<u8>>,
    messages: Seq<Record>,
) -> bool {
    &&& metadata.len() + 4 <= u32::MAX
    &&& messages.len() <= u32::MAX
    &&& index.len() == 16 * messages.len()
    &&& heads.len() == messages.len()
    &&& forall|i: int| 0 <= i < messages.len() ==> older_head(#[trigger] heads[i], messages[i])
    &&& body == le_bytes(metadata.len() + 4, 4) + metadata + le_bytes(messages.len(), 4) + index
        + older_messages(heads, messages)
}

proof fn lemma_older_messages_read(heads: Seq<Seq<u8>>, messages: Seq<Record>)
    requires
        heads.len() == messages.len(),
        forall|i: int| 0 <= i < messages.len() ==> older_head(#[trigger] heads[i], messages[i]),
    ensures
        legacy_records(older_messages(heads, messages), messages.len()) == Some(messages),
    decreases messages.len(),
{
    let bytes = older_messages(heads, messages);
    if messages.len() == 0 {
        assert(messages =~= Seq::empty());
    } else {
        let head = heads[0];
        let message = messages[0];
        let rest_heads = heads.drop_first();
        let rest = messages.drop_first();
        assert(older_head(head, message));
        assert forall|i: int| 0 <= i < rest.len() implies older_head(
            #[trigger] rest_heads[i],
            rest[i],
        ) by {
            assert(older_head(heads[i + 1], messages[i + 1]));
        }
        lemma_older_messages_read(rest_heads, rest);
        let behind = older_messages(rest_heads, rest);
        assert(bytes == head + message.payload + message.user_headers + behind);
        assert(bytes.subrange(8, 24) =~= head.subrange(8, 24));
        assert(bytes.subrange(40, 48) =~= head.subrange(40, 48));
        assert(bytes.subrange(48, 52) =~= head.subrange(48, 52));
        assert(bytes.subrange(52, 56) =~= head.subrange(52, 56));
        let payload_end: int = 64int + message.payload.len();
        let size: int = payload_end + message.user_headers.len();
        assert(bytes.subrange(64, payload_end) =~= message.payload);
        assert(bytes.subrange(payload_end, size) =~= message.user_headers);
        assert(bytes.subrange(size, bytes.len() as int) =~= behind);
        assert(legacy_record(bytes) == Some((message, size)));
        assert(seq![message] + rest =~= messages);
    }
}

/// A request in the older layout is read as exactly the messages that it
/// carries, whatever else is in its metadata, its index and its heads.
pub proof fn law_older_layout_is_read_back(
    body: Seq<u8>,
    metadata: Seq<u8>,
    index: Seq<u8>,
    heads: Seq<Seq<u8>>,
    messages: Seq<Record>,
)
    requires
        older_request(body, metadata, index, heads, messages),
    ensures
        legacy_request(body) == Some(messages),
        announced(body) == messages.len(),
{
    let bytes = older_messages(heads, messages);
    lemma_le_limits();
    lemma_le_read_of_write(metadata.len() + 4, 4);
    lemma_le_read_of_write(messages.len(), 4);
    lemma_older_messages_read(heads, messages);
    let count_at: int = 4int + metadata.len();
    let start: int = count_at + 4 + 16 * messages.len();
    assert(body.subrange(0, 4) =~= le_bytes(metadata.len() + 4, 4));
    assert(body.subrange(count_at, count_at + 4) =~= le_bytes(messages.len(), 4));
    assert(body.subrange(start, body.len() as int) =~= bytes);
    assert(legacy_messages(body) == Some((messages.len() as u32, bytes)));
}

proof fn lemma_heads_of(bytes: Seq<u8>, count: nat) -> (heads: Seq<Seq<u8>>)
    ensures
        legacy_records(bytes, count) matches Some(messages) ==> {
            &&& messages.len() == count
            &&& heads.len() == count
            &&& forall|i: int|
                0 <= i < messages.len() ==> older_head(#[trigger] heads[i], messages[i])
            &&& older_messages(heads, messages) == bytes
        },
    decreases count,
{
    if count == 0 {
        assert(legacy_records(bytes, count) matches Some(messages) ==> older_messages(
            Seq::<Seq<u8>>::empty(),
            messages,
        ) =~= bytes);
        Seq::empty()
    } else {
        match legacy_record(bytes) {
            Some((message, size)) => {
                let behind = bytes.subrange(size, bytes.len() as int);
                let rest_heads = lemma_heads_of(behind, (count - 1) as nat);
                let head = bytes.subrange(0, 64);
                let heads = seq![head] + rest_heads;
                match legacy_records(behind, (count - 1) as nat) {
                    Some(rest) => {
                        let messages = seq![message] + rest;
                        lemma_le_limits();
                        crate::codec::lemma_le_value_bound(bytes.subrange(8, 24));
                        crate::codec::lemma_le_value_bound(bytes.subrange(40, 48));
                        assert(head.subrange(8, 24) =~= bytes.subrange(8, 24));
                        assert(head.subrange(40, 48) =~= bytes.subrange(40, 48));
                        assert(head.subrange(48, 52) =~= bytes.subrange(48, 52));
                        assert(head.subrange(52, 56) =~= bytes.subrange(52, 56));
                        assert(older_head(head, message));
                        assert forall|i: int| 0 <= i < messages.len() implies older_head(
                            #[trigger] heads[i],
                            messages[i],
                        ) by {
                            if i > 0 {
                                assert(heads[i] == rest_heads[i - 1]);
                                assert(messages[i] == rest[i - 1]);
                            }
                        }
                        assert(heads.drop_first() =~= rest_heads);
                        assert(messages.drop_first() =~= rest);
                        assert(older_messages(heads, messages) =~= bytes);
                    },
                    None => {},
                }
                heads
            },
            None => Seq::empty(),
        }
    }
}

/// What is read as a request in the older layout is one: the messages that
/// were read, in the layout, make up the whole body. The exception is metadata
/// that is too short to hold the message count.
pub proof fn law_read_request_is_in_the_older_layout(body: Seq<u8>)
    requires
        legacy_request(body) is Some,
        le_at(body, 0, 4) >= 4,
    ensures
        exists|metadata: Seq<u8>, index: Seq<u8>, heads: Seq<Seq<u8>>|
            older_request(body, metadata, index, heads, legacy_request(body)->0),
{
    let messages = legacy_request(body)->0;
    let (count, bytes) = legacy_messages(body)->0;
    let heads = lemma_heads_of(bytes, count as nat);
    let count_at = le_at(body, 0, 4) as int;
    let metadata = body.subrange(4, count_at);
    let index = body.subrange(count_at + 4, count_at + 4 + 16 * count);
    lemma_le_limits();
    crate::codec::lemma_le_value_bound(body.subrange(0, 4));
    crate::codec::lemma_le_value_bound(body.subrange(count_at, count_at + 4));
    crate::codec::lemma_le_write_of_read(body.subrange(0, 4));
    crate::codec::lemma_le_write_of_read(body.subrange(count_at, count_at + 4));
    lemma_le_bytes_len(metadata.len() + 4, 4);
    lemma_le_bytes_len(messages.len(), 4);
    assert(body.subrange(count_at + 4 + 16 * count, body.len() as int) == bytes);
    assert(body =~= le_bytes(metadata.len() + 4, 4) + metadata + le_bytes(messages.len(), 4)
        + index + older_messages(heads, messages));
    assert(older_request(body, metadata, index, heads, messages));
}

/// Whether a batch, by its command header and its blob, holds `messages` for a
/// partition and has no place in it yet. A message with the id zero has none of
/// its own and goes under the one of `fresh_ids` at its place.
pub open spec fn holds_messages(
    header: SendMessages2Header,
    blob: Seq<u8>,
    partition_id: u64,
    messages: Seq<Record>,
    fresh_ids: Seq<u128>,
) -> bool {
    &&& header.partition_id == partition_id
    &&& header.base_offset == 0
    &&& header.base_timestamp == 0
    &&& header.batch_length == 256 + blob.len()
    &&& header.message_count == messages.len()
    &&& frames(blob).len() == messages.len()
    &&& covered(frames(blob)) == blob.len()
    &&& forall|i: int|
        #![trigger frames(blob)[i]]
        0 <= i < messages.len() ==> {
            let frame = frames(blob)[i];
            &&& frame.header.id == (if messages[i].id != 0 {
                messages[i].id
            } else {
                fresh_ids[i]
            })
            &&& frame.header.offset_delta == i
            &&& header.origin_timestamp + frame.header.timestamp_delta
                == messages[i].origin_timestamp
            &&& frame.payload(blob) == messages[i].payload
            &&& frame.user_headers(blob) == messages[i].user_headers
        }
    &&& messages.len() == 0 ==> header.origin_timestamp == 0
    &&& messages.len() > 0 ==> exists|i: int|
        0 <= i < messages.len() && header.origin_timestamp == (
        #[trigger] messages[i]).origin_timestamp
}

/// Whether `messages` can be put into one batch: they are few enough, each part
/// fits its length field, and no two lie further apart in time than a delta
/// field can hold.
pub open spec fn frameable(messages: Seq<Record>) -> bool {
    &&& messages.len() <= u32::MAX
    &&& forall|i: int|
        0 <= i < messages.len() ==> (#[trigger] messages[i]).payload.len() <= u32::MAX
            && messages[i].user_headers.len() <= u32::MAX
    &&& forall|i: int, j: int|
        0 <= i < messages.len() && 0 <= j < messages.len() ==> (
        #[trigger] messages[i]).origin_timestamp - (#[trigger] messages[j]).origin_timestamp
            <= 0xffff_ffff
}

/// The earliest timestamp is no later than any, and one of them.
proof fn lemma_earliest(records: Seq<Record>)
    ensures
        forall|i: int|
            0 <= i < records.len() ==> earliest(records) <= (
            #[trigger] records[i]).origin_timestamp,
        records.len() > 0 ==> exists|i: int|
            0 <= i < records.len() && earliest(records) == (
            #[trigger] records[i]).origin_timestamp,
    decreases records.len(),
{
    if records.len() > 0 {
        let shorter = records.drop_last();
        lemma_earliest(shorter);
        assert forall|i: int| 0 <= i < records.len() implies earliest(records) <= (
        #[trigger] records[i]).origin_timestamp by {
            lemma_origin_bound(records, i);
        }
        if earliest(records) == records.last().origin_timestamp {
            assert(records[records.len() - 1] == records.last());
        } else {
            let i = choose|i: int|
                0 <= i < shorter.len() && earliest(shorter) == (
                #[trigger] shorter[i]).origin_timestamp;
            assert(records[i] == shorter[i]);
        }
    }
}

/// `messages` with their ids settled.
proof fn lemma_settled_batch_holds(
    partition_id: u64,
    messages: Seq<Record>,
    fresh_ids: Seq<u128>,
    records: Seq<Record>,
)
    requires
        records == with_ids(messages, fresh_ids),
        records_error(records, origin_of(records)) is None,
        records.len() <= u32::MAX,
        256 + records_size(records) <= u64::MAX,
    ensures
        holds_messages(
            records_header(partition_id, records),
            records_blob(records),
            partition_id,
            messages,
            fresh_ids,
        ),
        frameable(messages),
        records_blob(records).len() == records_size(records),
{
    let header = records_header(partition_id, records);
    let blob = records_blob(records);
    let origin = origin_of(records);
    law_built_batch_decodes(partition_id, records, Seq::empty());
    lemma_records_size(records, origin);
    lemma_blob_size(crate::send_messages2::batch::contents_of(records, origin));
    lemma_earliest(records);
    crate::send_messages2::batch::lemma_contents_fit(records, origin);
    crate::send_messages2::encode::lemma_blob_round_trip(
        crate::send_messages2::batch::contents_of(records, origin),
    );
    assert forall|i: int| #![trigger frames(blob)[i]] 0 <= i < messages.len() implies {
        let frame = frames(blob)[i];
        &&& frame.header.id == (if messages[i].id != 0 {
            messages[i].id
        } else {
            fresh_ids[i]
        })
        &&& frame.header.offset_delta == i
        &&& header.origin_timestamp + frame.header.timestamp_delta == messages[i].origin_timestamp
        &&& frame.payload(blob) == messages[i].payload
        &&& frame.user_headers(blob) == messages[i].user_headers
    } by {
        assert(frame_shows_record(blob, frames(blob)[i], records[i], i, origin));
    }
    if messages.len() > 0 {
        let k = choose|i: int|
            0 <= i < records.len() && earliest(records) == (
            #[trigger] records[i]).origin_timestamp;
        lemma_no_record_error(records, origin, k);
        assert(messages[k].origin_timestamp == earliest(records));
        assert(earliest(records) < u64::MAX);
    }
    assert forall|i: int| 0 <= i < messages.len() implies (
    #[trigger] messages[i]).payload.len() <= u32::MAX && messages[i].user_headers.len()
        <= u32::MAX by {
        lemma_no_record_error(records, origin, i);
    }
    assert forall|i: int, j: int|
        0 <= i < messages.len() && 0 <= j < messages.len() implies (
    #[trigger] messages[i]).origin_timestamp - (#[trigger] messages[j]).origin_timestamp
        <= 0xffff_ffff by {
        lemma_no_record_error(records, origin, i);
        assert(earliest(records) <= records[j].origin_timestamp);
    }
}

proof fn lemma_frameable_has_no_error(records: Seq<Record>, n: nat)
    requires
        frameable(records),
        n <= records.len(),
        origin_of(records) == earliest(records),
    ensures
        records_error(records.take(n as int), origin_of(records)) is None,
    decreases n,
{
    if n > 0 {
        lemma_frameable_has_no_error(records, (n - 1) as nat);
        lemma_error_step(records, origin_of(records), n - 1);
        lemma_earliest(records);
        let i = n - 1;
        let k = choose|k: int|
            0 <= k < records.len() && earliest(records) == (
            #[trigger] records[k]).origin_timestamp;
        assert(records[i].origin_timestamp - records[k].origin_timestamp <= 0xffff_ffff);
    }
}

/// Whether some message lies before the end of time, or there is none at all.
pub open spec fn dated(messages: Seq<Record>) -> bool {
    messages.len() == 0 || exists|i: int|
        0 <= i < messages.len() && (#[trigger] messages[i]).origin_timestamp < u64::MAX
}

proof fn lemma_dated_origin(records: Seq<Record>)
    requires
        dated(records),
        records.len() > 0,
    ensures
        origin_of(records) == earliest(records),
{
    lemma_earliest(records);
    let i = choose|i: int|
        0 <= i < records.len() && (#[trigger] records[i]).origin_timestamp < u64::MAX;
    assert(earliest(records) <= records[i].origin_timestamp);
}

/// Messages of which none is dated before the end of time are refused: they
/// would lie too far from a batch that begins at zero.
pub proof fn law_undated_messages_are_refused(records: Seq<Record>)
    requires
        records.len() > 0,
        forall|i: int|
            0 <= i < records.len() ==> (#[trigger] records[i]).origin_timestamp == u64::MAX,
    ensures
        records_error(records, origin_of(records)) == Some(
            IggyError::InvalidMessageTimestampDelta(u64::MAX),
        ),
{
    lemma_earliest(records);
    assert(records[0].origin_timestamp == u64::MAX);
    assert(records.take(0) =~= Seq::empty());
    lemma_error_step(records, origin_of(records), 0);
    lemma_error_stays(records, origin_of(records), 1);
}

/// Messages can be built into a batch exactly where they are frameable. (A
/// batch with one message more than the count field holds is built all the
/// same, and is left out here.)
pub proof fn law_frameable_messages_are_framed(records: Seq<Record>)
    requires
        dated(records),
        records.len() <= u32::MAX,
    ensures
        records_error(records, origin_of(records)) is None <==> frameable(records),
{
    let origin = origin_of(records);
    if records.len() == 0 {
    } else {
        lemma_dated_origin(records);
        if frameable(records) {
            lemma_frameable_has_no_error(records, records.len());
            assert(records.take(records.len() as int) =~= records);
        }
        if records_error(records, origin) is None {
            lemma_earliest(records);
            assert forall|i: int| 0 <= i < records.len() implies (
            #[trigger] records[i]).payload.len() <= u32::MAX && records[i].user_headers.len()
                <= u32::MAX by {
                lemma_no_record_error(records, origin, i);
            }
            assert forall|i: int, j: int|
                0 <= i < records.len() && 0 <= j < records.len() implies (
            #[trigger] records[i]).origin_timestamp - (#[trigger] records[j]).origin_timestamp
                <= 0xffff_ffff by {
                lemma_no_record_error(records, origin, i);
                assert(earliest(records) <= records[j].origin_timestamp);
            }
        }
    }
}

/// The first message that cannot be framed decides the error: one that lies too
/// far behind the earliest is reported with that distance, one with an overlong
/// part as malformed.
pub proof fn law_first_bad_message_decides(records: Seq<Record>, i: int, first: int)
    requires
        records.len() <= u32::MAX,
        0 <= i < records.len(),
        0 <= first < records.len(),
        records[first].origin_timestamp < u64::MAX,
        forall|j: int|
            0 <= j < records.len() ==> records[first].origin_timestamp <= (
            #[trigger] records[j]).origin_timestamp,
        forall|j: int|
            0 <= j < i ==> {
                &&& (#[trigger] records[j]).origin_timestamp - records[first].origin_timestamp
                    <= 0xffff_ffff
                &&& records[j].payload.len() <= u32::MAX
                &&& records[j].user_headers.len() <= u32::MAX
            },
    ensures
        ({
            let distance = records[i].origin_timestamp - records[first].origin_timestamp;
            &&& distance > 0xffff_ffff ==> records_error(records, origin_of(records)) == Some(
                IggyError::InvalidMessageTimestampDelta(distance as u64),
            )
            &&& distance <= 0xffff_ffff && (records[i].payload.len() > u32::MAX
                || records[i].user_headers.len() > u32::MAX) ==> records_error(
                records,
                origin_of(records),
            ) == Some(IggyError::InvalidCommand)
        }),
{
    let origin = origin_of(records);
    lemma_earliest(records);
    assert(earliest(records) <= records[first].origin_timestamp);
    assert(origin == records[first].origin_timestamp);
    lemma_front_has_no_error(records, i);
    lemma_error_step(records, origin, i);
    lemma_error_stays(records, origin, i + 1);
}

proof fn lemma_front_has_no_error(records: Seq<Record>, n: int)
    requires
        0 <= n <= records.len() <= u32::MAX,
        forall|j: int|
            0 <= j < n ==> {
                &&& (#[trigger] records[j]).origin_timestamp - origin_of(records) <= 0xffff_ffff
                &&& records[j].payload.len() <= u32::MAX
                &&& records[j].user_headers.len() <= u32::MAX
            },
    ensures
        records_error(records.take(n), origin_of(records)) is None,
    decreases n,
{
    if n > 0 {
        lemma_front_has_no_error(records, n - 1);
        lemma_error_step(records, origin_of(records), n - 1);
        lemma_origin_bound(records, n - 1);
        assert(records[n - 1].payload.len() <= u32::MAX);
    }
}

/// A batch that is built from messages holds them: for the partition that it is
/// built for, in order, each with its own id or the fresh one at its place,
/// with its timestamp, its payload and its user headers.
pub proof fn law_built_batch_holds_the_messages(
    partition_id: u64,
    built: Seq<IggyMessage2>,
    fresh_ids: Seq<u128>,
    messages: Seq<Record>,
)
    requires
        messages.len() == built.len() <= u32::MAX,
        forall|i: int|
            #![trigger messages[i]]
            0 <= i < messages.len() ==> {
                &&& messages[i].id == built[i].header.id
                &&& messages[i].origin_timestamp == built[i].header.origin_timestamp
                &&& messages[i].payload == bytes_of(built[i].payload)
                &&& messages[i].user_headers == (match built[i].user_headers {
                    Some(bytes) => bytes_of(bytes),
                    None => Seq::empty(),
                })
            },
        dated(messages),
        256 + records_size(records_of(built, fresh_ids)) <= u64::MAX,
    ensures
        ({
            let records = records_of(built, fresh_ids);
            let header = records_header(partition_id, records);
            let blob = records_blob(records);
            &&& records_error(records, origin_of(records)) is None <==> frameable(messages)
            &&& frameable(messages) ==> holds_messages(
                header,
                blob,
                partition_id,
                messages,
                fresh_ids,
            )
            &&& frameable(messages) ==> blob.len() == records_size(records)
            &&& header.batch_checksum == batch_checksum(header, blob)
        }),
{
    let records = records_of(built, fresh_ids);
    assert(records =~= with_ids(messages, fresh_ids));
    lemma_settling_keeps_frameable(messages, fresh_ids);
    law_frameable_messages_are_framed(records);
    if frameable(messages) {
        lemma_settled_batch_holds(partition_id, messages, fresh_ids, records);
    }
    lemma_seal_ignores_itself(unsealed_header(partition_id, records), records_blob(records));
}

/// A header that was sealed has its own checksum.
proof fn lemma_seal_ignores_itself(header: SendMessages2Header, blob: Seq<u8>)
    ensures
        sealed(header, blob).batch_checksum == batch_checksum(sealed(header, blob), blob),
{
    assert(crate::send_messages2::checksum::header_fields(sealed(header, blob))
        == crate::send_messages2::checksum::header_fields(header));
}

proof fn lemma_settling_keeps_frameable(messages: Seq<Record>, fresh_ids: Seq<u128>)
    ensures
        frameable(with_ids(messages, fresh_ids)) <==> frameable(messages),
        dated(with_ids(messages, fresh_ids)) <==> dated(messages),
{
    let records = with_ids(messages, fresh_ids);
    assert forall|i: int| 0 <= i < messages.len() implies (#[trigger] records[i]).origin_timestamp
        == messages[i].origin_timestamp && records[i].payload == messages[i].payload
        && records[i].user_headers == messages[i].user_headers by {}
    if frameable(records) {
        assert forall|i: int| 0 <= i < messages.len() implies (
        #[trigger] messages[i]).payload.len() <= u32::MAX && messages[i].user_headers.len()
            <= u32::MAX by {
            assert(records[i].payload.len() <= u32::MAX);
        }
        assert forall|i: int, j: int|
            0 <= i < messages.len() && 0 <= j < messages.len() implies (
        #[trigger] messages[i]).origin_timestamp - (#[trigger] messages[j]).origin_timestamp
            <= 0xffff_ffff by {
            assert(records[i].origin_timestamp - records[j].origin_timestamp <= 0xffff_ffff);
        }
    }
    if messages.len() > 0 {
        if dated(records) {
            let i = choose|i: int|
                0 <= i < records.len() && (#[trigger] records[i]).origin_timestamp < u64::MAX;
            assert(messages[i].origin_timestamp < u64::MAX);
        }
        if dated(messages) {
            let i = choose|i: int|
                0 <= i < messages.len() && (#[trigger] messages[i]).origin_timestamp < u64::MAX;
            assert(records[i].origin_timestamp < u64::MAX);
        }
    }
}

/// Bytes of the parts of `messages`.
pub open spec fn parts_size(messages: Seq<Record>) -> nat
    decreases messages.len(),
{
    if messages.len() == 0 {
        0
    } else {
        parts_size(messages.drop_last()) + messages.last().payload.len()
            + messages.last().user_headers.len()
    }
}

proof fn lemma_parts_size(messages: Seq<Record>, fresh_ids: Seq<u128>)
    ensures
        records_size(with_ids(messages, fresh_ids)) == 48 * messages.len() + parts_size(messages),
    decreases messages.len(),
{
    let records = with_ids(messages, fresh_ids);
    if messages.len() > 0 {
        lemma_parts_size(messages.drop_last(), fresh_ids);
        assert(records.drop_last() =~= with_ids(messages.drop_last(), fresh_ids));
    }
}

/// A request in the older layout is converted exactly where its messages are
/// frameable and the new request fits its size field. The new request keeps
/// the header but for the size, and its batch holds the messages. The batch
/// checksum is right where it was asked for and zero where it was not.
pub proof fn law_conversion_carries_the_messages(
    partition_id: u64,
    body: Seq<u8>,
    metadata: Seq<u8>,
    index: Seq<u8>,
    heads: Seq<Seq<u8>>,
    messages: Seq<Record>,
    request_header: RequestHeader,
    checksum: ChecksumMode,
    fresh_ids: Seq<u128>,
)
    requires
        older_request(body, metadata, index, heads, messages),
        dated(messages),
    ensures
        ({
            let converted = converted_request(
                partition_id,
                body,
                request_header,
                checksum,
                fresh_ids,
            );
            let size = 512 + 48 * messages.len() + parts_size(messages);
            &&& converted is Ok <==> frameable(messages) && size <= u32::MAX
            &&& size > u32::MAX ==> converted == Err::<(RequestHeader, Seq<u8>), _>(
                IggyError::InvalidCommand,
            )
            &&& size <= u32::MAX && !frameable(messages) ==> records_error(
                with_ids(messages, fresh_ids),
                origin_of(with_ids(messages, fresh_ids)),
            ) == Some(converted->Err_0)
            &&& converted matches Ok((framed, batch)) ==> {
                let header = decoded_header(batch)->0;
                let blob = batch.subrange(256, batch.len() as int);
                &&& framed.size == 256 + batch.len() == size
                &&& framed == (RequestHeader { size: framed.size, ..request_header })
                &&& decoded_header(batch) is Some
                &&& batch.subrange(0, 256) == header_bytes(header)
                &&& holds_messages(header, blob, partition_id, messages, fresh_ids)
                &&& header.batch_checksum == (match checksum {
                    ChecksumMode::Compute => batch_checksum(header, blob),
                    ChecksumMode::Skip => 0,
                })
            }
        }),
{
    law_older_layout_is_read_back(body, metadata, index, heads, messages);
    let records = with_ids(messages, fresh_ids);
    lemma_parts_size(messages, fresh_ids);
    lemma_settling_keeps_frameable(messages, fresh_ids);
    law_frameable_messages_are_framed(records);
    let size = 512 + 48 * messages.len() + parts_size(messages);
    if frameable(messages) && size <= u32::MAX {
        lemma_settled_batch_holds(partition_id, messages, fresh_ids, records);
        let header = crate::send_messages2::legacy::converted_header(
            partition_id,
            records,
            checksum,
        );
        let blob = records_blob(records);
        let batch = header_bytes(header) + blob;
        lemma_header_layout(header);
        crate::send_messages2::header::law_header_round_trip(header, blob);
        assert(batch.subrange(0, 256) =~= header_bytes(header));
        assert(batch.subrange(256, batch.len() as int) =~= blob);
        lemma_seal_ignores_itself(unsealed_header(partition_id, records), blob);
    }
}

/// A body that is not in the older layout is malformed, whatever it is converted
/// with; the messages of one that is begin behind the metadata and the index,
/// and are as many as the metadata's last four bytes say.
pub proof fn law_other_bodies_are_not_converted(
    partition_id: u64,
    body: Seq<u8>,
    request_header: RequestHeader,
    checksum: ChecksumMode,
    fresh_ids: Seq<u128>,
)
    ensures
        legacy_request(body) is None ==> converted_request(
            partition_id,
            body,
            request_header,
            checksum,
            fresh_ids,
        ) == Err::<(RequestHeader, Seq<u8>), _>(IggyError::InvalidCommand),
        ({
            let count_at = le_at(body, 0, 4) as int;
            let count = le_at(body, count_at, 4);
            let start = 4 + count_at + 16 * count;
            &&& legacy_messages(body) is Some <==> body.len() >= 4 && body.len() >= 4 + count_at
                && body.len() >= start
            &&& legacy_messages(body) matches Some((announced_count, bytes)) ==> announced_count
                == count && bytes == body.subrange(start, body.len() as int)
        }),
        legacy_messages(body) is None ==> announced(body) == 0 && legacy_request(body) is None,
        legacy_messages(body) matches Some((count, _)) ==> announced(body) == count,
{
    let count_at = le_at(body, 0, 4) as int;
    if body.len() >= 4 && body.len() >= 4 + count_at {
        lemma_le_limits();
        crate::codec::lemma_le_value_bound(body.subrange(count_at, count_at + 4));
    }
}

/// What a message without an id travels under is the fresh one at its place;
/// any other keeps its own, and nothing else of either changes.
pub proof fn law_own_ids_are_kept(messages: Seq<Record>, fresh_ids: Seq<u128>)
    ensures
        with_ids(messages, fresh_ids).len() == messages.len(),
        forall|i: int|
            #![trigger with_ids(messages, fresh_ids)[i]]
            0 <= i < messages.len() ==> {
                let settled = with_ids(messages, fresh_ids)[i];
                &&& messages[i].id != 0 ==> settled.id == messages[i].id
                &&& messages[i].id == 0 ==> settled.id == fresh_ids[i]
                &&& settled.origin_timestamp == messages[i].origin_timestamp
                &&& settled.payload == messages[i].payload
                &&& settled.user_headers == messages[i].user_headers
            },
{
}

/// A message is the same as another where all that is known of them and all
/// their bytes are equal.
pub proof fn law_same_message_has_the_same_bytes(message: IggyMessage2, other: IggyMessage2)
    ensures
        message.same_as(other) <==> {
            &&& message.header == other.header
            &&& bytes_of(message.payload) == bytes_of(other.payload)
            &&& match (message.user_headers, other.user_headers) {
                (Some(bytes), Some(other_bytes)) => bytes_of(bytes) == bytes_of(other_bytes),
                (None, None) => true,
                _ => false,
            }
        },
{
}

/// What a decode is said to return is what was decoded, and what an encryption
/// is said to return is the request that was asked for.
pub proof fn law_results_are_handed_on(
    batch: Result<SendMessages2Ref<'_>, IggyError>,
    decoded: Result<(SendMessages2Header, Seq<u8>), IggyError>,
    request: Result<Message<RequestHeader>, IggyError>,
    expected: Result<(RequestHeader, Seq<u8>), IggyError>,
)
    ensures
        decodes_as(batch, decoded) ==> match (batch, decoded) {
            (Ok(found), Ok((header, blob))) => found.header == header && found.blob@ == blob,
            (Err(found), Err(error)) => found == error,
            _ => false,
        },
        encrypts_as(request, expected) ==> match (request, expected) {
            (Ok(found), Ok((header, body))) => found.header == header && found.body@ == body,
            (Err(found), Err(error)) => found == error,
            _ => false,
        },
{
}

/// The payload of a request is the part of its body that the announced size
/// covers behind the 256-byte header, where it covers that and lies inside the
/// frame.
pub proof fn law_payload_is_what_the_size_covers(message: Message<RequestHeader>)
    ensures
        message.wf() <==> 256 <= message.header.size <= 256 + message.body@.len(),
        message.wf() ==> message.payload() == message.body@.subrange(
            0,
            message.header.size - 256,
        ),
{
}

/// The parts that are listed for a cipher are the messages' own: of each, in
/// order, its payload and its user headers, where it has any.
pub proof fn law_listed_parts_are_the_messages(parts: Seq<MessageParts>, blob: Seq<u8>)
    ensures
        lists_parts(parts, blob) <==> {
            &&& parts.len() == frames(blob).len()
            &&& forall|i: int|
                #![trigger parts[i]]
                0 <= i < parts.len() ==> {
                    let frame = frames(blob)[i];
                    let plain = frame.user_headers(blob);
                    &&& parts[i].payload@ == frame.payload(blob)
                    &&& match parts[i].user_headers {
                        Some(bytes) => plain.len() > 0 && bytes@ == plain,
                        None => plain.len() == 0,
                    }
                }
        },
{
    if parts.len() == frames(blob).len() {
        assert forall|i: int| #![trigger parts[i]] 0 <= i < parts.len() implies (parts[i].of_frame(
            blob,
            frames(blob)[i],
        ) <==> {
            let frame = frames(blob)[i];
            let plain = frame.user_headers(blob);
            &&& parts[i].payload@ == frame.payload(blob)
            &&& match parts[i].user_headers {
                Some(bytes) => plain.len() > 0 && bytes@ == plain,
                None => plain.len() == 0,
            }
        }) by {
            assert(frames(blob)[i].user_headers(blob).len() == 0 ==> frames(blob)[i].user_headers(
                blob,
            ) =~= Seq::empty());
        }
    }
}

/// The bytes that a cipher returned for user headers.
pub open spec fn returned_headers(parts: MessageParts) -> Seq<u8> {
    match parts.user_headers {
        Some(bytes) => bytes@,
        None => Seq::empty(),
    }
}

proof fn lemma_encrypted_total(blob: Seq<u8>, found: Seq<Frame>, encrypted: Seq<EncryptedParts>)
    requires
        found.len() <= encrypted.len(),
        encryption_errors(blob, found, encrypted) is None,
    ensures
        blob_size(encrypted_contents(blob, found, encrypted)) <= encrypted_size(
            encrypted.take(found.len() as int),
        ),
    decreases found.len(),
{
    let contents = encrypted_contents(blob, found, encrypted);
    if found.len() > 0 {
        let shorter = found.drop_last();
        let n = found.len() as int;
        lemma_encrypted_total(blob, shorter, encrypted);
        assert(contents.drop_last() =~= encrypted_contents(blob, shorter, encrypted));
        assert(encrypted.take(n).drop_last() =~= encrypted.take(n - 1));
        assert(encryption_error(blob, found.last(), encrypted[n - 1]) is None);
        assert(contents.last() == encrypted_content(blob, found.last(), encrypted[n - 1]->Ok_0));
    }
}

proof fn lemma_encryption_errors_at(
    blob: Seq<u8>,
    found: Seq<Frame>,
    encrypted: Seq<EncryptedParts>,
    i: int,
)
    requires
        encryption_errors(blob, found, encrypted) is None,
        0 <= i < found.len(),
    ensures
        encryption_error(blob, found[i], encrypted[i]) is None,
    decreases found.len(),
{
    if i < found.len() - 1 {
        lemma_encryption_errors_at(blob, found.drop_last(), encrypted, i);
    }
}

/// Whether the frame `is` of an encrypted blob holds what the cipher returned
/// for the message in the frame `was` of the plain one: the payload's bytes in
/// place of the payload, the user headers' in place of the user headers where
/// there were any, and the id and the deltas of before.
pub open spec fn holds_returned(
    plain: Seq<u8>,
    was: Frame,
    blob: Seq<u8>,
    is: Frame,
    encrypted: EncryptedParts,
) -> bool {
    &&& encrypted matches Ok(parts)
    &&& is.payload(blob) == parts.payload@
    &&& is.user_headers(blob) == (if was.user_headers(plain).len() > 0 {
        returned_headers(parts)
    } else {
        Seq::empty()
    })
    &&& is.header.id == was.header.id
    &&& is.header.offset_delta == was.header.offset_delta
    &&& is.header.timestamp_delta == was.header.timestamp_delta
}

proof fn lemma_encrypted_frames(plain: Seq<u8>, encrypted: Seq<EncryptedParts>)
    requires
        encryption_errors(plain, frames(plain), encrypted) is None,
    ensures
        ({
            let blob = blob_of(encrypted_contents(plain, frames(plain), encrypted));
            &&& frames(blob).len() == frames(plain).len()
            &&& forall|i: int|
                0 <= i < frames(blob).len() ==> holds_returned(
                    plain,
                    frames(plain)[i],
                    blob,
                    #[trigger] frames(blob)[i],
                    encrypted[i],
                )
        }),
{
    let found = frames(plain);
    let contents = encrypted_contents(plain, found, encrypted);
    let blob = blob_of(contents);
    lemma_encrypted_fit(plain, found, encrypted);
    lemma_blob_round_trip(contents);
    assert forall|i: int| 0 <= i < frames(blob).len() implies holds_returned(
        plain,
        found[i],
        blob,
        #[trigger] frames(blob)[i],
        encrypted[i],
    ) by {
        lemma_frame_found(contents, i);
        lemma_encryption_errors_at(plain, found, encrypted, i);
        assert(frames(blob)[i] == frame_of_content(contents, i));
        assert(contents[i] == encrypted_content(plain, found[i], encrypted[i]->Ok_0));
    }
}

proof fn lemma_encrypted_header(header: SendMessages2Header, contents: Seq<Content>)
    requires
        256 + blob_size(contents) <= u64::MAX,
    ensures
        ({
            let after = encrypted_header(header, contents);
            &&& after.partition_id == header.partition_id
            &&& after.base_offset == header.base_offset
            &&& after.base_timestamp == header.base_timestamp
            &&& after.origin_timestamp == header.origin_timestamp
            &&& after.message_count == header.message_count
            &&& after.batch_length == 256 + blob_of(contents).len()
            &&& after.batch_checksum == batch_checksum(after, blob_of(contents))
        }),
{
    lemma_blob_size(contents);
    lemma_seal_ignores_itself(
        SendMessages2Header { batch_length: (256 + blob_size(contents)) as u64, ..header },
        blob_of(contents),
    );
}

/// An encrypted batch holds, for every message, the bytes that the cipher
/// returned for its payload, and those that it returned for its user headers
/// where it had any. Ids, deltas, partition, place and timestamps stay; length
/// and checksum are restated, and the batch decodes.
pub proof fn law_encrypted_batch_holds_what_the_cipher_returned(
    payload: Seq<u8>,
    request_header: RequestHeader,
    encrypted: Seq<EncryptedParts>,
    header: SendMessages2Header,
    plain: Seq<u8>,
    framed: RequestHeader,
    body: Seq<u8>,
)
    requires
        decoded_batch(payload) == Ok::<_, IggyError>((header, plain)),
        frames(plain).len() <= encrypted.len(),
        512 + encrypted_size(encrypted) <= u64::MAX,
        encrypted_request(payload, request_header, encrypted) == Ok::<_, IggyError>(
            (framed, body),
        ),
    ensures
        decoded_batch(body) matches Ok((after, blob)) && {
            &&& frames(blob).len() == frames(plain).len()
            &&& forall|i: int|
                0 <= i < frames(blob).len() ==> holds_returned(
                    plain,
                    frames(plain)[i],
                    blob,
                    #[trigger] frames(blob)[i],
                    encrypted[i],
                )
            &&& after.partition_id == header.partition_id
            &&& after.base_offset == header.base_offset
            &&& after.base_timestamp == header.base_timestamp
            &&& after.origin_timestamp == header.origin_timestamp
            &&& after.message_count == header.message_count
            &&& after.batch_length == 256 + blob.len()
            &&& after.batch_length == body.len()
            &&& after.batch_checksum == batch_checksum(after, blob)
            &&& framed.size == 256 + body.len()
            &&& framed == (RequestHeader { size: framed.size, ..request_header })
        },
{
    let found = frames(plain);
    let contents = encrypted_contents(plain, found, encrypted);
    let blob = blob_of(contents);
    let after = encrypted_header(header, contents);
    lemma_encrypted_total(plain, found, encrypted);
    lemma_encrypted_size_monotonic(encrypted, found.len() as int);
    lemma_encrypted_header(header, contents);
    lemma_encrypted_frames(plain, encrypted);
    assert(decoded_batch(body) == Ok::<_, IggyError>((after, blob))) by {
        law_encrypted_batch_decodes(payload, request_header, encrypted);
    }
    law_request_frame_holds_the_batch(request_header, after, blob);
}

proof fn lemma_encryption_error_stays(
    blob: Seq<u8>,
    found: Seq<Frame>,
    encrypted: Seq<EncryptedParts>,
    i: int,
)
    requires
        0 <= i < found.len(),
        encryption_error(blob, found[i], encrypted[i]) is Some,
        forall|j: int|
            #![trigger encrypted[j]]
            0 <= j < i ==> encryption_error(blob, found[j], encrypted[j]) is None,
    ensures
        encryption_errors(blob, found, encrypted) == encryption_error(
            blob,
            found[i],
            encrypted[i],
        ),
    decreases found.len(),
{
    if i < found.len() - 1 {
        lemma_encryption_error_stays(blob, found.drop_last(), encrypted, i);
    } else {
        lemma_no_encryption_error(blob, found.drop_last(), encrypted);
    }
}

proof fn lemma_no_encryption_error(
    blob: Seq<u8>,
    found: Seq<Frame>,
    encrypted: Seq<EncryptedParts>,
)
    requires
        forall|j: int|
            #![trigger encrypted[j]]
            0 <= j < found.len() ==> encryption_error(blob, found[j], encrypted[j]) is None,
    ensures
        encryption_errors(blob, found, encrypted) is None,
    decreases found.len(),
{
    if found.len() > 0 {
        assert forall|j: int|
            #![trigger encrypted[j]]
            0 <= j < found.len() - 1 implies encryption_error(
            blob,
            found.drop_last()[j],
            encrypted[j],
        ) is None by {}
        lemma_no_encryption_error(blob, found.drop_last(), encrypted);
        let last = encrypted[found.len() - 1];
        assert(encryption_error(blob, found[found.len() - 1], last) is None);
    }
}

/// Whether what the cipher returned for a message can be framed.
pub open spec fn returned_in_bounds(encrypted: EncryptedParts) -> bool {
    encrypted matches Ok(parts) && parts.payload@.len() <= u32::MAX && returned_headers(parts).len()
        <= u32::MAX
}

/// A batch that does not decode is refused as malformed. The first message that
/// the cipher failed on decides the error. Where it failed on none, and all
/// that it returned fits into one request, the batch is encrypted.
pub proof fn law_encryption_fails_with_the_cipher_only(
    payload: Seq<u8>,
    request_header: RequestHeader,
    encrypted: Seq<EncryptedParts>,
    i: int,
)
    ensures
        decoded_batch(payload) is Err ==> encrypted_request(payload, request_header, encrypted)
            == Err::<(RequestHeader, Seq<u8>), _>(IggyError::InvalidCommand),
        decoded_batch(payload) matches Ok((_, plain)) ==> frames(plain).len() <= encrypted.len()
            ==> {
            &&& 0 <= i < frames(plain).len() && encrypted[i] is Err && (forall|j: int|
                0 <= j < i ==> returned_in_bounds(#[trigger] encrypted[j]))
                ==> encrypted_request(payload, request_header, encrypted) == Err::<
                (RequestHeader, Seq<u8>),
                _,
            >(encrypted[i]->Err_0)
            &&& 0 <= i < frames(plain).len() && encrypted[i] is Ok
                && encrypted[i]->Ok_0.payload@.len() > u32::MAX && (forall|j: int|
                0 <= j < i ==> returned_in_bounds(#[trigger] encrypted[j]))
                ==> encrypted_request(payload, request_header, encrypted) == Err::<
                (RequestHeader, Seq<u8>),
                _,
            >(IggyError::InvalidCommand)
            &&& (forall|j: int|
                0 <= j < frames(plain).len() ==> returned_in_bounds(#[trigger] encrypted[j]))
                && encrypted_request(payload, request_header, encrypted) is Err
                ==> encrypted_request(payload, request_header, encrypted) == Err::<
                (RequestHeader, Seq<u8>),
                _,
            >(IggyError::InvalidCommand)
            &&& (forall|j: int|
                0 <= j < frames(plain).len() ==> returned_in_bounds(#[trigger] encrypted[j]))
                && 512 + encrypted_size(encrypted) <= u32::MAX ==> encrypted_request(
                payload,
                request_header,
                encrypted,
            ) is Ok
        },
{
    if decoded_batch(payload) is Ok {
        let (header, plain) = decoded_batch(payload)->Ok_0;
        let found = frames(plain);
        if found.len() <= encrypted.len() {
            assert forall|j: int|
                #![trigger encrypted[j]]
                0 <= j < found.len() && returned_in_bounds(encrypted[j]) implies encryption_error(
                plain,
                found[j],
                encrypted[j],
            ) is None by {}
            if 0 <= i < found.len() && (encrypted[i] is Err || encrypted[i]->Ok_0.payload@.len()
                > u32::MAX) && (forall|j: int|
                0 <= j < i ==> returned_in_bounds(#[trigger] encrypted[j])) {
                lemma_encryption_error_stays(plain, found, encrypted, i);
            }
            if forall|j: int|
                0 <= j < found.len() ==> returned_in_bounds(#[trigger] encrypted[j]) {
                lemma_no_encryption_error(plain, found, encrypted);
                lemma_encrypted_total(plain, found, encrypted);
                lemma_encrypted_size_monotonic(encrypted, found.len() as int);
                lemma_blob_size(encrypted_contents(plain, found, encrypted));
            }
        }
    }
}

/// The bound on what a cipher returned grows with every message by what it
/// returned for that one and the frame's header.
pub proof fn law_returned_bytes_add_up(encrypted: Seq<EncryptedParts>, next: EncryptedParts)
    ensures
        encrypted_size(Seq::<EncryptedParts>::empty()) == 0,
        encrypted_size(encrypted.push(next)) == encrypted_size(encrypted) + match next {
            Ok(parts) => 48 + parts.payload@.len() + returned_headers(parts).len(),
            Err(_) => 0,
        },
{
    assert(encrypted.push(next).drop_last() =~= encrypted);
}

/// Stamping succeeds exactly where the prepare is long enough for a batch and
/// begins with a command header. The header then has the given offset and
/// timestamp, the checksum that goes with them, and all else as it was; the
/// persisted bytes say the same.
pub proof fn law_stamp_sets_the_place_only(
    body: Seq<u8>,
    size: u32,
    base_offset: u64,
    base_timestamp: u64,
)
    requires
        size <= 256 + body.len(),
    ensures
        stamped_header(body, size, base_offset, base_timestamp) is Some <==> size >= 512
            && body.len() >= 256 && le_at(body, 32, 8) >= 256,
        stamped_header(body, size, base_offset, base_timestamp) matches Some(header) ==> {
            &&& header.base_offset == base_offset
            &&& header.base_timestamp == base_timestamp
            &&& header.partition_id == le_at(body, 0, 8)
            &&& header.origin_timestamp == le_at(body, 24, 8)
            &&& header.batch_length == le_at(body, 32, 8)
            &&& header.message_count == le_at(body, 48, 4)
            &&& header.batch_checksum == batch_checksum(header, body.subrange(256, size - 256))
            &&& le_at(header_bytes(header), 8, 8) == base_offset
            &&& le_at(header_bytes(header), 16, 8) == base_timestamp
        },
{
    crate::send_messages2::layout::law_command_header_is_read_in_place(body);
    match stamped_header(body, size, base_offset, base_timestamp) {
        Some(header) => {
            lemma_header_layout(header);
            lemma_seal_ignores_itself(
                SendMessages2Header { base_offset, base_timestamp, ..decoded_header(body)->0 },
                body.subrange(256, size - 256),
            );
        },
        None => {},
    }
}

} // verus!
