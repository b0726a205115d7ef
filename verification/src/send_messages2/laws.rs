//! What holds of batches across building, converting, stamping, encrypting
//! and reading.
use crate::codec::{le_bytes, lemma_le_limits, lemma_le_value_bound, lemma_le_write_of_read};
use crate::error::IggyError;
use crate::message::{PrepareHeader, RequestHeader, HEADER_SIZE};
use crate::send_messages2::batch::{
    contents_of, lemma_contents_fit, lemma_records_size, origin_of, padded, record_of,
    records_blob, records_error, records_header, records_of, records_size, request_of, sealed,
    unsealed_header, Record,
};
use crate::send_messages2::checksum::{
    batch_checksum, first_damaged, frame_intact, header_fields, stored_checksums, verified_checksum,
};
use crate::send_messages2::decode::{
    decoded_batch, split_batch, stamped_header, trusted_prepare, validated_prepare,
};
use crate::send_messages2::encode::{
    all_fit, blob_of, blob_size, frame_of_content, lemma_blob_round_trip, lemma_blob_size,
    lemma_frame_found, Content,
};
use crate::send_messages2::encrypt::{
    encrypted_contents, encrypted_header, encrypted_request, encryption_errors, EncryptedParts,
};
use crate::send_messages2::frames::{covered, frame_at, frames, frames_from, Frame};
use crate::send_messages2::header::{
    decoded_header, header_bytes, law_header_round_trip, lemma_header_layout, SendMessages2Header,
    COMMAND_HEADER_SIZE,
};
use crate::send_messages2::legacy::{
    converted_request, legacy_request, with_ids, ChecksumMode,
};
use crate::send_messages2::messages::IggyMessage2;
use vstd::prelude::*;

verus! {

/// A sealed header in front of frames that are as many as it says decodes to
/// exactly this header and this blob, whatever follows them.
proof fn lemma_sealed_decodes(header: SendMessages2Header, contents: Seq<Content>, rest: Seq<u8>)
    requires
        all_fit(contents),
        header.message_count == contents.len(),
        header.batch_length == COMMAND_HEADER_SIZE + blob_size(contents),
    ensures
        ({
            let blob = blob_of(contents);
            decoded_batch(header_bytes(sealed(header, blob)) + blob + rest) == Ok::<_, IggyError>(
                (sealed(header, blob), blob),
            )
        }),
        frames(blob_of(contents)).len() == contents.len(),
{
    let blob = blob_of(contents);
    let own = sealed(header, blob);
    let body = header_bytes(own) + blob + rest;
    lemma_blob_round_trip(contents);
    lemma_blob_size(contents);
    lemma_header_layout(own);
    law_header_round_trip(own, blob + rest);
    assert(body =~= header_bytes(own) + (blob + rest));
    assert(body.subrange(256, own.batch_length as int) =~= blob);
    assert(header_fields(own) == header_fields(header));
}

/// What a reader of a batch built from `records` finds in frame `i`.
pub open spec fn frame_shows_record(
    blob: Seq<u8>,
    frame: Frame,
    record: Record,
    i: int,
    origin: u64,
) -> bool {
    &&& frame.header.id == record.id
    &&& frame.header.offset_delta == i
    &&& frame.header.timestamp_delta == record.origin_timestamp - origin
    &&& frame.payload(blob) == record.payload
    &&& frame.user_headers(blob) == record.user_headers
}

/// A batch that was built from records decodes, whatever follows it, and its
/// frames show the records in order.
pub proof fn law_built_batch_decodes(partition_id: u64, records: Seq<Record>, rest: Seq<u8>)
    requires
        records_error(records, origin_of(records)) is None,
        records.len() <= u32::MAX,
        COMMAND_HEADER_SIZE + records_size(records) <= u64::MAX,
    ensures
        ({
            let header = records_header(partition_id, records);
            let blob = records_blob(records);
            &&& decoded_batch(header_bytes(header) + blob + rest) == Ok::<_, IggyError>(
                (header, blob),
            )
            &&& frames(blob).len() == records.len()
            &&& forall|i: int|
                0 <= i < records.len() ==> frame_shows_record(
                    blob,
                    #[trigger] frames(blob)[i],
                    records[i],
                    i,
                    origin_of(records),
                )
        }),
{
    let origin = origin_of(records);
    let contents = contents_of(records, origin);
    let blob = records_blob(records);
    lemma_contents_fit(records, origin);
    lemma_records_size(records, origin);
    lemma_sealed_decodes(unsealed_header(partition_id, records), contents, rest);
    lemma_blob_round_trip(contents);
    assert forall|i: int| 0 <= i < records.len() implies frame_shows_record(
        blob,
        #[trigger] frames(blob)[i],
        records[i],
        i,
        origin,
    ) by {
        lemma_frame_found(contents, i);
        lemma_no_record_error(records, origin, i);
        assert(frames(blob)[i] == frame_of_content(contents, i));
    }
}

pub(crate) proof fn lemma_no_record_error(records: Seq<Record>, origin: u64, i: int)
    requires
        records_error(records, origin) is None,
        0 <= i < records.len(),
    ensures
        crate::send_messages2::batch::record_error(records[i], i, origin) is None,
    decreases records.len(),
{
    if i < records.len() - 1 {
        lemma_no_record_error(records.drop_last(), origin, i);
    }
}

/// A batch decodes exactly where it is whole, every message's checksum is that
/// of its bytes, the messages are as many as the header says and fill the
/// blob, and the batch checksum is right.
pub proof fn law_decoded_batch_is_intact(body: Seq<u8>)
    ensures
        decoded_batch(body) is Ok <==> {
            &&& split_batch(body) matches Some((header, blob))
            &&& forall|i: int|
                0 <= i < frames(blob).len() ==> frame_intact(blob, #[trigger] frames(blob)[i])
            &&& frames(blob).len() == header.message_count
            &&& covered(frames(blob)) == blob.len()
            &&& header.batch_checksum == batch_checksum(header, blob)
        },
{
    match split_batch(body) {
        Some((_, blob)) => lemma_damage(blob, frames(blob)),
        None => {},
    }
}

proof fn lemma_damage(blob: Seq<u8>, frames: Seq<Frame>)
    ensures
        first_damaged(blob, frames) is None <==> forall|i: int|
            0 <= i < frames.len() ==> frame_intact(blob, #[trigger] frames[i]),
        first_damaged(blob, frames) matches Some(frame) ==> exists|i: int|
            0 <= i < frames.len() && frame == #[trigger] frames[i] && !frame_intact(blob, frame),
    decreases frames.len(),
{
    if frames.len() > 0 {
        let rest = frames.drop_first();
        lemma_damage(blob, rest);
        if frame_intact(blob, frames[0]) {
            if first_damaged(blob, rest) is None {
                assert forall|i: int| 0 <= i < frames.len() implies frame_intact(
                    blob,
                    #[trigger] frames[i],
                ) by {
                    if i > 0 {
                        assert(frames[i] == rest[i - 1]);
                    }
                }
            } else {
                let frame = first_damaged(blob, rest)->0;
                let i = choose|i: int| 0 <= i < rest.len() && frame == #[trigger] rest[i];
                assert(rest[i] == frames[i + 1]);
            }
        }
    }
}

/// A batch with a message whose stored checksum is not that of its bytes is
/// refused for that reason, whatever its batch checksum says.
pub proof fn law_damaged_message_is_refused(body: Seq<u8>, i: int)
    requires
        split_batch(body) is Some,
        ({
            let (_, blob) = split_batch(body)->0;
            0 <= i < frames(blob).len() && !frame_intact(blob, frames(blob)[i])
        }),
    ensures
        decoded_batch(body) matches Err(error) && error is InvalidMessageChecksum,
{
    let (_, blob) = split_batch(body)->0;
    lemma_damage(blob, frames(blob));
}

/// The batch checksum binds nothing of the messages but their stored checksums,
/// in message order: blobs with as many frames and, frame by frame, the same
/// stored checksum have the same one, wherever their frames lie and whatever
/// else is in them.
pub proof fn law_batch_checksum_binds_stored_checksums_only(
    header: SendMessages2Header,
    blob: Seq<u8>,
    other: Seq<u8>,
)
    requires
        frames(blob).len() == frames(other).len(),
        forall|i: int|
            0 <= i < frames(blob).len() ==> (#[trigger] frames(blob)[i]).checksum_field(blob)
                == frames(other)[i].checksum_field(other),
    ensures
        batch_checksum(header, blob) == batch_checksum(header, other),
{
    lemma_stored_checksums(blob, frames(blob), other, frames(other));
}

/// The batch checksum does not see the messages' bodies: blobs with the same
/// frame headers at the same places have the same one.
pub proof fn law_batch_checksum_is_blind_to_bodies(
    header: SendMessages2Header,
    blob: Seq<u8>,
    other: Seq<u8>,
)
    requires
        frames(blob) == frames(other),
    ensures
        batch_checksum(header, blob) == batch_checksum(header, other),
{
    lemma_stored_checksums_from(blob, 0);
    lemma_stored_checksums_from(other, 0);
    law_batch_checksum_binds_stored_checksums_only(header, blob, other);
}

/// The stored checksum field of every frame of a walk spells what the frame's
/// header says.
proof fn lemma_stored_checksums_from(blob: Seq<u8>, position: int)
    ensures
        forall|i: int|
            0 <= i < frames_from(blob, position).len() ==> (#[trigger] frames_from(
                blob,
                position,
            )[i]).checksum_field(blob) == le_bytes(
                frames_from(blob, position)[i].header.checksum as nat,
                8,
            ),
    decreases blob.len() - position,
{
    match frame_at(blob, position) {
        Some(frame) => {
            lemma_stored_checksums_from(blob, frame.end);
            let found = frames_from(blob, position);
            let rest = frames_from(blob, frame.end);
            let tail = blob.subrange(position, blob.len() as int);
            assert(tail.subrange(0, 8) =~= blob.subrange(position, position + 8));
            lemma_le_limits();
            lemma_le_value_bound(tail.subrange(0, 8));
            lemma_le_write_of_read(tail.subrange(0, 8));
            assert forall|i: int| 0 <= i < found.len() implies (#[trigger] found[i]).checksum_field(
                blob,
            ) == le_bytes(found[i].header.checksum as nat, 8) by {
                if i > 0 {
                    assert(found[i] == rest[i - 1]);
                }
            }
        },
        None => {},
    }
}

proof fn lemma_stored_checksums(
    blob: Seq<u8>,
    frames: Seq<Frame>,
    other: Seq<u8>,
    other_frames: Seq<Frame>,
)
    requires
        frames.len() == other_frames.len(),
        forall|i: int|
            0 <= i < frames.len() ==> (#[trigger] frames[i]).checksum_field(blob)
                == other_frames[i].checksum_field(other),
    ensures
        stored_checksums(blob, frames) == stored_checksums(other, other_frames),
    decreases frames.len(),
{
    if frames.len() > 0 {
        lemma_stored_checksums(blob, frames.drop_last(), other, other_frames.drop_last());
        assert(frames.last() == frames[frames.len() - 1]);
    }
}

/// Where the validating decode of a prepare accepts, the trusted one gives the
/// same; where the trusted one refuses, so does the validating one, for the
/// same reason.
pub proof fn law_trusted_decode_agrees(bytes: Seq<u8>, prepare: Option<PrepareHeader>)
    ensures
        validated_prepare(bytes, prepare) is Ok ==> trusted_prepare(bytes, prepare)
            == validated_prepare(bytes, prepare),
        trusted_prepare(bytes, prepare) is Err ==> validated_prepare(bytes, prepare)
            == trusted_prepare(bytes, prepare),
{
}

/// Whether the message checksums of a batch hold does not depend on its place
/// in the partition nor on its batch checksum.
pub proof fn law_message_checks_ignore_stamp(
    header: SendMessages2Header,
    blob: Seq<u8>,
    base_offset: u64,
    base_timestamp: u64,
    stored_checksum: u64,
)
    ensures
        verified_checksum(
            SendMessages2Header {
                base_offset,
                base_timestamp,
                batch_checksum: stored_checksum,
                ..header
            },
            blob,
        ) is Ok <==> verified_checksum(header, blob) is Ok,
{
}

/// The prepare that carries a batch with `header`, and its announced size.
pub open spec fn prepare_bytes(
    frame_header: Seq<u8>,
    header: SendMessages2Header,
    blob: Seq<u8>,
) -> Seq<u8> {
    frame_header + header_bytes(header) + blob
}

/// A prepare that carries a built batch passes the check at its receipt,
/// before and after it is stamped.
pub proof fn law_received_batch_is_accepted(
    frame_header: Seq<u8>,
    partition_id: u64,
    records: Seq<Record>,
    base_offset: u64,
    base_timestamp: u64,
    stored_checksum: u64,
)
    requires
        frame_header.len() == HEADER_SIZE,
        records_error(records, origin_of(records)) is None,
        HEADER_SIZE + COMMAND_HEADER_SIZE + records_size(records) <= u32::MAX,
    ensures
        ({
            let header = SendMessages2Header {
                base_offset,
                base_timestamp,
                batch_checksum: stored_checksum,
                ..unsealed_header(partition_id, records)
            };
            let blob = records_blob(records);
            let prepare = PrepareHeader { size: (HEADER_SIZE + header.batch_length) as u32 };
            &&& trusted_prepare(prepare_bytes(frame_header, header, blob), Some(prepare))
                == Ok::<_, IggyError>((header, blob))
            &&& verified_checksum(header, blob) is Ok
        }),
{
    let origin = origin_of(records);
    let contents = contents_of(records, origin);
    let blob = records_blob(records);
    let header = SendMessages2Header {
        base_offset,
        base_timestamp,
        batch_checksum: stored_checksum,
        ..unsealed_header(partition_id, records)
    };
    let bytes = prepare_bytes(frame_header, header, blob);
    lemma_contents_fit(records, origin);
    lemma_records_size(records, origin);
    lemma_blob_round_trip(contents);
    lemma_blob_size(contents);
    lemma_header_layout(header);
    law_header_round_trip(header, blob);
    let body = bytes.subrange(256, 256 + header.batch_length as int);
    assert(body =~= header_bytes(header) + blob);
    assert(body.subrange(256, header.batch_length as int) =~= blob);
}

/// A prepare whose messages are intact and which ends where its batch ends
/// passes the validating decode once it is stamped, with the header that the
/// stamp reported.
pub proof fn law_stamped_prepare_decodes(
    frame_header: Seq<u8>,
    body: Seq<u8>,
    size: u32,
    base_offset: u64,
    base_timestamp: u64,
)
    requires
        frame_header.len() == HEADER_SIZE,
        size <= HEADER_SIZE + body.len(),
        stamped_header(body, size, base_offset, base_timestamp) is Some,
        decoded_header(body)->0.batch_length == size - HEADER_SIZE,
        verified_checksum(
            decoded_header(body)->0,
            body.subrange(COMMAND_HEADER_SIZE as int, size - HEADER_SIZE),
        ) is Ok,
    ensures
        ({
            let header = stamped_header(body, size, base_offset, base_timestamp)->0;
            let stamped = header_bytes(header) + body.subrange(
                COMMAND_HEADER_SIZE as int,
                body.len() as int,
            );
            validated_prepare(frame_header + stamped, Some(PrepareHeader { size }))
                == Ok::<_, IggyError>(
                (header, body.subrange(COMMAND_HEADER_SIZE as int, size - HEADER_SIZE)),
            )
        }),
{
    let header = stamped_header(body, size, base_offset, base_timestamp)->0;
    let blob = body.subrange(256, size - 256);
    let behind = body.subrange(256, body.len() as int);
    let stamped = header_bytes(header) + behind;
    let bytes = frame_header + stamped;
    lemma_header_layout(header);
    let inner = bytes.subrange(256, size as int);
    assert(inner =~= header_bytes(header) + blob);
    law_header_round_trip(header, blob);
    assert(inner.subrange(256, header.batch_length as int) =~= blob);
    assert(header_fields(header) == header_fields(
        SendMessages2Header { base_offset, base_timestamp, ..decoded_header(body)->0 },
    ));
}

/// Stamping a prepare again leaves nothing of the first stamp.
pub proof fn law_last_stamp_wins(
    body: Seq<u8>,
    size: u32,
    first_offset: u64,
    first_timestamp: u64,
    base_offset: u64,
    base_timestamp: u64,
)
    requires
        size <= HEADER_SIZE + body.len(),
        stamped_header(body, size, first_offset, first_timestamp) is Some,
    ensures
        ({
            let header = stamped_header(body, size, first_offset, first_timestamp)->0;
            let stamped = header_bytes(header) + body.subrange(
                COMMAND_HEADER_SIZE as int,
                body.len() as int,
            );
            stamped_header(stamped, size, base_offset, base_timestamp) == stamped_header(
                body,
                size,
                base_offset,
                base_timestamp,
            )
        }),
{
    let own = decoded_header(body)->0;
    let header = stamped_header(body, size, first_offset, first_timestamp)->0;
    let behind = body.subrange(256, body.len() as int);
    let stamped = header_bytes(header) + behind;
    lemma_le_limits();
    lemma_le_value_bound(body.subrange(32, 40));
    lemma_header_layout(header);
    law_header_round_trip(header, behind);
    assert(stamped.subrange(256, size - 256) =~= body.subrange(256, size - 256));
    let blob = body.subrange(256, size - 256);
    let again = SendMessages2Header { base_offset, base_timestamp, ..header };
    let once = SendMessages2Header { base_offset, base_timestamp, ..own };
    assert(header_fields(again) == header_fields(once));
}

/// Converting a request in the older layout gives, byte for byte, the request
/// that the batch built from the same records is encoded into.
pub proof fn law_conversion_equals_native_batch(
    partition_id: u64,
    body: Seq<u8>,
    request_header: RequestHeader,
    fresh_ids: Seq<u128>,
    records: Seq<Record>,
)
    requires
        legacy_request(body) matches Some(raw) && with_ids(raw, fresh_ids) == records,
        records_error(records, origin_of(records)) is None,
        HEADER_SIZE + COMMAND_HEADER_SIZE + records_size(records) <= u64::MAX,
    ensures
        converted_request(partition_id, body, request_header, ChecksumMode::Compute, fresh_ids)
            == (match request_of(
            request_header,
            records_header(partition_id, records),
            records_blob(records),
        ) {
            Some(request) => Ok::<_, IggyError>(request),
            None => Err(IggyError::InvalidCommand),
        }),
{
    let header = records_header(partition_id, records);
    let blob = records_blob(records);
    lemma_records_size(records, origin_of(records));
    lemma_blob_size(contents_of(records, origin_of(records)));
    lemma_header_layout(header);
    assert(padded(header_bytes(header) + blob, header.batch_length as int) =~= header_bytes(header)
        + blob);
}

/// Whether a request in the older layout carries exactly `messages`: their ids,
/// as far as they have one, their timestamps, payloads and user headers, in
/// their order.
pub open spec fn carries(body: Seq<u8>, messages: Seq<IggyMessage2>) -> bool {
    legacy_request(body) == Some(
        Seq::new(messages.len(), |i: int| record_of(messages[i], 0)),
    )
}

/// A request in the older layout that carries `messages` is converted, byte for
/// byte, into the request that building a batch from those messages and
/// encoding it gives, whatever ids either takes for messages that have their
/// own. Where the messages cannot be framed, both fail with the same error,
/// unless the converted request would be too large as well.
pub proof fn law_conversion_equals_build_then_encode(
    partition_id: u64,
    body: Seq<u8>,
    request_header: RequestHeader,
    messages: Seq<IggyMessage2>,
    fresh_ids: Seq<u128>,
    build_ids: Seq<u128>,
)
    requires
        carries(body, messages),
        forall|i: int|
            0 <= i < messages.len() && (#[trigger] messages[i]).header.id == 0 ==> fresh_ids[i]
                == build_ids[i],
        HEADER_SIZE + COMMAND_HEADER_SIZE + records_size(records_of(messages, build_ids))
            <= u64::MAX,
    ensures
        ({
            let records = records_of(messages, build_ids);
            let converted = converted_request(
                partition_id,
                body,
                request_header,
                ChecksumMode::Compute,
                fresh_ids,
            );
            match records_error(records, origin_of(records)) {
                None => converted == (match request_of(
                    request_header,
                    records_header(partition_id, records),
                    records_blob(records),
                ) {
                    Some(request) => Ok::<_, IggyError>(request),
                    None => Err(IggyError::InvalidCommand),
                }),
                Some(error) => converted == Err::<(RequestHeader, Seq<u8>), _>(
                    if HEADER_SIZE + COMMAND_HEADER_SIZE + records_size(records) > u32::MAX {
                        IggyError::InvalidCommand
                    } else {
                        error
                    },
                ),
            }
        }),
{
    let records = records_of(messages, build_ids);
    let raw = legacy_request(body).unwrap();
    assert(with_ids(raw, fresh_ids) =~= records);
    if records_error(records, origin_of(records)) is None {
        law_conversion_equals_native_batch(partition_id, body, request_header, fresh_ids, records);
    }
}

/// Whether the checksum is computed decides nothing but the eight bytes of the
/// batch checksum, which stay zero where it is not.
pub proof fn law_skipped_checksum_changes_nothing_else(
    partition_id: u64,
    body: Seq<u8>,
    request_header: RequestHeader,
    fresh_ids: Seq<u128>,
)
    ensures
        match (
            converted_request(partition_id, body, request_header, ChecksumMode::Skip, fresh_ids),
            converted_request(
                partition_id,
                body,
                request_header,
                ChecksumMode::Compute,
                fresh_ids,
            ),
        ) {
            (Ok((skipped_header, skipped)), Ok((computed_header, computed))) => {
                &&& skipped_header == computed_header
                &&& skipped.len() == computed.len()
                &&& forall|i: int|
                    0 <= i < skipped.len() && !(40 <= i < 48) ==> skipped[i] == computed[i]
                &&& forall|i: int| 40 <= i < 48 ==> skipped[i] == 0
            },
            (Err(skipped), Err(computed)) => skipped == computed,
            _ => false,
        },
{
    match legacy_request(body) {
        Some(raw) => {
            let records = with_ids(raw, fresh_ids);
            let skipped = unsealed_header(partition_id, records);
            let computed = sealed(skipped, records_blob(records));
            lemma_checksum_field(skipped, computed.batch_checksum);
        },
        None => {},
    }
}

/// Two headers that differ in the batch checksum differ in eight bytes only.
proof fn lemma_checksum_field(header: SendMessages2Header, checksum: u64)
    requires
        header.batch_checksum == 0,
    ensures
        ({
            let one = header_bytes(header);
            let other = header_bytes(SendMessages2Header { batch_checksum: checksum, ..header });
            &&& one.len() == COMMAND_HEADER_SIZE
            &&& other.len() == COMMAND_HEADER_SIZE
            &&& forall|i: int|
                0 <= i < one.len() && !(40 <= i < 48) ==> one[i] == other[i]
            &&& forall|i: int| 40 <= i < 48 ==> one[i] == 0
        }),
{
    let other = SendMessages2Header { batch_checksum: checksum, ..header };
    lemma_header_layout(header);
    lemma_header_layout(other);
    crate::codec::lemma_le_bytes_len(header.partition_id as nat, 8);
    crate::codec::lemma_le_bytes_len(header.base_offset as nat, 8);
    crate::codec::lemma_le_bytes_len(header.base_timestamp as nat, 8);
    crate::codec::lemma_le_bytes_len(header.origin_timestamp as nat, 8);
    crate::codec::lemma_le_bytes_len(header.batch_length as nat, 8);
    crate::codec::lemma_le_bytes_len(checksum as nat, 8);
    crate::codec::lemma_le_bytes_len(header.message_count as nat, 4);
    crate::codec::lemma_le_bytes_len(0, 204);
    crate::codec::lemma_le_zeros(8);
}

/// What a conversion with its checksum computed gives back is a valid batch,
/// so a second conversion leaves it as it is.
pub proof fn law_converted_batch_is_canonical(
    partition_id: u64,
    body: Seq<u8>,
    request_header: RequestHeader,
    fresh_ids: Seq<u128>,
)
    ensures
        converted_request(
            partition_id,
            body,
            request_header,
            ChecksumMode::Compute,
            fresh_ids,
        ) matches Ok((_, converted)) ==> decoded_batch(converted) is Ok,
{
    match legacy_request(body) {
        Some(raw) => {
            let records = with_ids(raw, fresh_ids);
            if HEADER_SIZE + COMMAND_HEADER_SIZE + records_size(records) <= u32::MAX
                && records_error(records, origin_of(records)) is None {
                lemma_records_size(records, origin_of(records));
                law_built_batch_decodes(partition_id, records, Seq::empty());
                let converted = header_bytes(records_header(partition_id, records)) + records_blob(
                    records,
                );
                assert(converted + Seq::<u8>::empty() =~= converted);
            }
        },
        None => {},
    }
}

/// An encrypted batch decodes. It holds as many messages as before, each with
/// the id and the deltas that it had and with the cipher's parts.
pub proof fn law_encrypted_batch_decodes(
    payload: Seq<u8>,
    request_header: RequestHeader,
    encrypted: Seq<EncryptedParts>,
)
    requires
        encrypted_request(payload, request_header, encrypted) is Ok,
        decoded_batch(payload) matches Ok((_, plain)) && COMMAND_HEADER_SIZE + blob_size(
            encrypted_contents(plain, frames(plain), encrypted),
        ) <= u64::MAX,
    ensures
        ({
            let (header, plain) = decoded_batch(payload)->Ok_0;
            let (_, body) = encrypted_request(payload, request_header, encrypted)->Ok_0;
            let contents = encrypted_contents(plain, frames(plain), encrypted);
            let blob = blob_of(contents);
            &&& decoded_batch(body) == Ok::<_, IggyError>(
                (encrypted_header(header, contents), blob),
            )
            &&& frames(blob).len() == frames(plain).len()
            &&& forall|i: int|
                #![trigger frames(blob)[i]]
                0 <= i < frames(blob).len() ==> {
                    let before = frames(plain)[i];
                    let after = frames(blob)[i];
                    &&& after.header.id == before.header.id
                    &&& after.header.offset_delta == before.header.offset_delta
                    &&& after.header.timestamp_delta == before.header.timestamp_delta
                    &&& after.payload(blob) == contents[i].payload
                    &&& after.user_headers(blob) == contents[i].user_headers
                }
        }),
{
    let (header, plain) = decoded_batch(payload)->Ok_0;
    let contents = encrypted_contents(plain, frames(plain), encrypted);
    let blob = blob_of(contents);
    let unsealed = SendMessages2Header {
        batch_length: (COMMAND_HEADER_SIZE + blob_size(contents)) as u64,
        ..header
    };
    let own = encrypted_header(header, contents);
    lemma_encrypted_fit(plain, frames(plain), encrypted);
    lemma_blob_size(contents);
    lemma_header_layout(own);
    lemma_sealed_decodes(unsealed, contents, Seq::empty());
    let body = header_bytes(own) + blob;
    assert(padded(body, own.batch_length as int) =~= body + Seq::<u8>::empty());
    lemma_blob_round_trip(contents);
    assert forall|i: int|
        #![trigger frames(blob)[i]]
        0 <= i < frames(blob).len() implies {
        let before = frames(plain)[i];
        let after = frames(blob)[i];
        &&& after.header.id == before.header.id
        &&& after.header.offset_delta == before.header.offset_delta
        &&& after.header.timestamp_delta == before.header.timestamp_delta
        &&& after.payload(blob) == contents[i].payload
        &&& after.user_headers(blob) == contents[i].user_headers
    } by {
        lemma_frame_found(contents, i);
        assert(frames(blob)[i] == frame_of_content(contents, i));
    }
}

pub(crate) proof fn lemma_encrypted_fit(blob: Seq<u8>, frames: Seq<Frame>, encrypted: Seq<EncryptedParts>)
    requires
        encryption_errors(blob, frames, encrypted) is None,
    ensures
        all_fit(encrypted_contents(blob, frames, encrypted)),
    decreases frames.len(),
{
    if frames.len() > 0 {
        let shorter = frames.drop_last();
        lemma_encrypted_fit(blob, shorter, encrypted);
        let contents = encrypted_contents(blob, frames, encrypted);
        assert forall|i: int| 0 <= i < contents.len() implies (#[trigger] contents[i]).fits() by {
            if i < shorter.len() {
                assert(contents[i] == encrypted_contents(blob, shorter, encrypted)[i]);
            }
        }
    }
}

} // verus!
