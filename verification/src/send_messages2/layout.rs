//! Where everything lies in a batch, byte by byte, and what a reader is told of
//! bytes that are not a batch.
use crate::codec::{le_at, le_bytes, lemma_le_bytes_len, lemma_le_zeros, splice};
use crate::error::IggyError;
use crate::hash::xxh3_64;
use crate::message::{PrepareHeader, RequestHeader};
use crate::send_messages2::batch::request_of;
use crate::send_messages2::checksum::{
    batch_checksum, first_damaged, frame_intact, stored_checksums,
};
use crate::send_messages2::decode::{
    decoded_batch, split_batch, trusted_prepare, validated_prepare,
};
use crate::send_messages2::frames::{
    covered, decoded_message_header, frame_at, frames, frames_from, Frame,
    SendMessages2MessageView,
};
use crate::send_messages2::header::{
    decoded_header, fresh_header, header_bytes, lemma_header_layout, SendMessages2Header,
};
use vstd::prelude::*;

verus! {

/// The command header is 256 bytes: partition, base offset, base timestamp,
/// origin timestamp, length and checksum of the batch in eight bytes each, the
/// message count in four, and zeros.
pub proof fn law_command_header_layout(header: SendMessages2Header)
    ensures
        header_bytes(header).len() == 256,
        le_at(header_bytes(header), 0, 8) == header.partition_id,
        le_at(header_bytes(header), 8, 8) == header.base_offset,
        le_at(header_bytes(header), 16, 8) == header.base_timestamp,
        le_at(header_bytes(header), 24, 8) == header.origin_timestamp,
        le_at(header_bytes(header), 32, 8) == header.batch_length,
        le_at(header_bytes(header), 40, 8) == header.batch_checksum,
        le_at(header_bytes(header), 48, 4) == header.message_count,
        forall|i: int| 52 <= i < 256 ==> header_bytes(header)[i] == 0,
{
    lemma_header_layout(header);
    lemma_header_parts(header);
    lemma_le_zeros(204);
}

proof fn lemma_header_parts(header: SendMessages2Header)
    ensures
        le_bytes(header.partition_id as nat, 8).len() == 8,
        le_bytes(header.base_offset as nat, 8).len() == 8,
        le_bytes(header.base_timestamp as nat, 8).len() == 8,
        le_bytes(header.origin_timestamp as nat, 8).len() == 8,
        le_bytes(header.batch_length as nat, 8).len() == 8,
        le_bytes(header.batch_checksum as nat, 8).len() == 8,
        le_bytes(header.message_count as nat, 4).len() == 4,
        le_bytes(0, 204).len() == 204,
{
    lemma_le_bytes_len(header.partition_id as nat, 8);
    lemma_le_bytes_len(header.base_offset as nat, 8);
    lemma_le_bytes_len(header.base_timestamp as nat, 8);
    lemma_le_bytes_len(header.origin_timestamp as nat, 8);
    lemma_le_bytes_len(header.batch_length as nat, 8);
    lemma_le_bytes_len(header.batch_checksum as nat, 8);
    lemma_le_bytes_len(header.message_count as nat, 4);
    lemma_le_bytes_len(0, 204);
}

/// A command header is read wherever there are 256 bytes and they announce a
/// batch that is no shorter; each field is the number at its own place.
pub proof fn law_command_header_is_read_in_place(bytes: Seq<u8>)
    ensures
        decoded_header(bytes) is Some <==> bytes.len() >= 256 && le_at(bytes, 32, 8) >= 256,
        decoded_header(bytes) matches Some(header) ==> {
            &&& header.partition_id == le_at(bytes, 0, 8)
            &&& header.base_offset == le_at(bytes, 8, 8)
            &&& header.base_timestamp == le_at(bytes, 16, 8)
            &&& header.origin_timestamp == le_at(bytes, 24, 8)
            &&& header.batch_length == le_at(bytes, 32, 8)
            &&& header.batch_checksum == le_at(bytes, 40, 8)
            &&& header.message_count == le_at(bytes, 48, 4)
        },
{
    if bytes.len() >= 256 {
        crate::codec::lemma_le_limits();
        crate::codec::lemma_le_value_bound(bytes.subrange(0, 8));
        crate::codec::lemma_le_value_bound(bytes.subrange(8, 16));
        crate::codec::lemma_le_value_bound(bytes.subrange(16, 24));
        crate::codec::lemma_le_value_bound(bytes.subrange(24, 32));
        crate::codec::lemma_le_value_bound(bytes.subrange(32, 40));
        crate::codec::lemma_le_value_bound(bytes.subrange(40, 48));
        crate::codec::lemma_le_value_bound(bytes.subrange(48, 52));
    }
}

/// A fresh header has the fields that it is made of, and no place and no
/// checksum yet.
pub proof fn law_fresh_header_has_no_place(
    partition_id: u64,
    origin_timestamp: u64,
    batch_length: u64,
    message_count: u32,
)
    ensures
        ({
            let header = fresh_header(partition_id, origin_timestamp, batch_length, message_count);
            &&& header.partition_id == partition_id
            &&& header.base_offset == 0
            &&& header.base_timestamp == 0
            &&& header.origin_timestamp == origin_timestamp
            &&& header.batch_length == batch_length
            &&& header.batch_checksum == 0
            &&& header.message_count == message_count
        }),
{
}

/// Writing over a part of a buffer changes that part and no other.
pub proof fn law_splice_touches_its_part_only(bytes: Seq<u8>, at: int, patch: Seq<u8>)
    requires
        0 <= at,
        at + patch.len() <= bytes.len(),
    ensures
        splice(bytes, at, patch).len() == bytes.len(),
        splice(bytes, at, patch).subrange(at, at + patch.len()) == patch,
        splice(bytes, at, patch).subrange(0, at) == bytes.subrange(0, at),
        splice(bytes, at, patch).subrange(at + patch.len(), bytes.len() as int) == bytes.subrange(
            at + patch.len(),
            bytes.len() as int,
        ),
{
    let spliced = splice(bytes, at, patch);
    assert(spliced.subrange(at, at + patch.len()) =~= patch);
    assert(spliced.subrange(0, at) =~= bytes.subrange(0, at));
    assert(spliced.subrange(at + patch.len(), bytes.len() as int) =~= bytes.subrange(
        at + patch.len(),
        bytes.len() as int,
    ));
}

/// Whether a whole frame lies in `blob` at `start`: 48 bytes of header, of
/// which the last eight are zero, and as many behind it as its two lengths say.
pub open spec fn whole_frame_at(blob: Seq<u8>, start: int) -> bool {
    &&& start + 48 <= blob.len()
    &&& le_at(blob, start + 40, 8) == 0
    &&& start + 48 + le_at(blob, start + 32, 4) + le_at(blob, start + 36, 4) <= blob.len()
}

proof fn lemma_frame_at(blob: Seq<u8>, start: int)
    requires
        0 <= start <= blob.len(),
    ensures
        frame_at(blob, start) is Some <==> whole_frame_at(blob, start),
        frame_at(blob, start) matches Some(frame) ==> {
            &&& frame.start == start
            &&& frame.end == start + 48 + le_at(blob, start + 32, 4) + le_at(blob, start + 36, 4)
            &&& frame.header.checksum == le_at(blob, start, 8)
            &&& frame.header.id == le_at(blob, start + 8, 16)
            &&& frame.header.offset_delta == le_at(blob, start + 24, 4)
            &&& frame.header.timestamp_delta == le_at(blob, start + 28, 4)
            &&& frame.header.user_headers_length == le_at(blob, start + 32, 4)
            &&& frame.header.payload_length == le_at(blob, start + 36, 4)
        },
{
    let tail = blob.subrange(start, blob.len() as int);
    if start + 48 <= blob.len() {
        crate::codec::lemma_le_limits();
        assert(tail.subrange(0, 8) =~= blob.subrange(start, start + 8));
        assert(tail.subrange(8, 24) =~= blob.subrange(start + 8, start + 24));
        assert(tail.subrange(24, 28) =~= blob.subrange(start + 24, start + 28));
        assert(tail.subrange(28, 32) =~= blob.subrange(start + 28, start + 32));
        assert(tail.subrange(32, 36) =~= blob.subrange(start + 32, start + 36));
        assert(tail.subrange(36, 40) =~= blob.subrange(start + 36, start + 40));
        assert(tail.subrange(40, 48) =~= blob.subrange(start + 40, start + 48));
        crate::codec::lemma_le_value_bound(tail.subrange(0, 8));
        crate::codec::lemma_le_value_bound(tail.subrange(8, 24));
        crate::codec::lemma_le_value_bound(tail.subrange(24, 28));
        crate::codec::lemma_le_value_bound(tail.subrange(28, 32));
        crate::codec::lemma_le_value_bound(tail.subrange(32, 36));
        crate::codec::lemma_le_value_bound(tail.subrange(36, 40));
        assert(decoded_message_header(tail) is Some <==> le_at(blob, start + 40, 8) == 0);
    }
}

/// Where a walk that starts at `start` reads its frames.
proof fn lemma_frames_from(blob: Seq<u8>, start: int)
    requires
        0 <= start <= blob.len(),
    ensures
        ({
            let found = frames_from(blob, start);
            &&& forall|i: int|
                #![trigger found[i]]
                0 <= i < found.len() ==> {
                    &&& found[i].start == (if i == 0 {
                        start
                    } else {
                        found[i - 1].end
                    })
                    &&& start <= found[i].start <= blob.len()
                    &&& frame_at(blob, found[i].start) == Some(found[i])
                }
            &&& frame_at(
                blob,
                if found.len() == 0 {
                    start
                } else {
                    found.last().end
                },
            ) is None
            &&& found.len() > 0 ==> start < found.last().end <= blob.len()
        }),
    decreases blob.len() - start,
{
    lemma_frame_at(blob, start);
    match frame_at(blob, start) {
        Some(frame) => {
            lemma_frames_from(blob, frame.end);
            let found = frames_from(blob, start);
            let rest = frames_from(blob, frame.end);
            assert(found == seq![frame] + rest);
            assert forall|i: int|
                #![trigger found[i]]
                0 <= i < found.len() implies {
                &&& found[i].start == (if i == 0 {
                    start
                } else {
                    found[i - 1].end
                })
                &&& start <= found[i].start <= blob.len()
                &&& frame_at(blob, found[i].start) == Some(found[i])
            } by {
                if i > 0 {
                    assert(found[i] == rest[i - 1]);
                    if i > 1 {
                        assert(found[i - 1] == rest[i - 2]);
                    }
                }
            }
            if rest.len() > 0 {
                assert(found.last() == rest.last());
            }
        },
        None => {},
    }
}

/// The frames of a blob lie end to end from its first byte on, up to the first
/// place where no whole frame lies. Of each, the header's fields are the
/// numbers at their places, the payload follows the header, and the user
/// headers follow the payload up to the frame's end.
pub proof fn law_frames_lie_end_to_end(blob: Seq<u8>)
    ensures
        forall|i: int|
            #![trigger frames(blob)[i]]
            0 <= i < frames(blob).len() ==> {
                let frame = frames(blob)[i];
                let start = frame.start;
                let payload_end = start + 48 + le_at(blob, start + 36, 4);
                &&& start == (if i == 0 {
                    0
                } else {
                    frames(blob)[i - 1].end
                })
                &&& 0 <= start
                &&& whole_frame_at(blob, start)
                &&& frame.header.checksum == le_at(blob, start, 8)
                &&& frame.header.id == le_at(blob, start + 8, 16)
                &&& frame.header.offset_delta == le_at(blob, start + 24, 4)
                &&& frame.header.timestamp_delta == le_at(blob, start + 28, 4)
                &&& frame.header.user_headers_length == le_at(blob, start + 32, 4)
                &&& frame.header.payload_length == le_at(blob, start + 36, 4)
                &&& frame.end == payload_end + le_at(blob, start + 32, 4)
                &&& frame.end == start + frame.header.frame_size()
                &&& frame.payload(blob) == blob.subrange(start + 48, payload_end)
                &&& frame.user_headers(blob) == blob.subrange(payload_end, frame.end)
                &&& frame.cover(blob) == blob.subrange(start + 8, frame.end)
                &&& frame.checksum_field(blob) == blob.subrange(start, start + 8)
                &&& frame_intact(blob, frame) <==> le_at(blob, start, 8) == xxh3_64(
                    blob.subrange(start + 8, frame.end),
                )
            },
        covered(frames(blob)) == (if frames(blob).len() == 0 {
            0
        } else {
            frames(blob).last().end
        }),
        0 <= covered(frames(blob)) <= blob.len(),
        !whole_frame_at(blob, covered(frames(blob))),
{
    lemma_frames_from(blob, 0);
    assert forall|i: int| #![trigger frames(blob)[i]] 0 <= i < frames(blob).len() implies {
        let frame = frames(blob)[i];
        let start = frame.start;
        let payload_end = start + 48 + le_at(blob, start + 36, 4);
        &&& start == (if i == 0 {
            0
        } else {
            frames(blob)[i - 1].end
        })
        &&& 0 <= start
        &&& whole_frame_at(blob, start)
        &&& frame.header.checksum == le_at(blob, start, 8)
        &&& frame.header.id == le_at(blob, start + 8, 16)
        &&& frame.header.offset_delta == le_at(blob, start + 24, 4)
        &&& frame.header.timestamp_delta == le_at(blob, start + 28, 4)
        &&& frame.header.user_headers_length == le_at(blob, start + 32, 4)
        &&& frame.header.payload_length == le_at(blob, start + 36, 4)
        &&& frame.end == payload_end + le_at(blob, start + 32, 4)
        &&& frame.end == start + frame.header.frame_size()
        &&& frame.payload(blob) == blob.subrange(start + 48, payload_end)
        &&& frame.user_headers(blob) == blob.subrange(payload_end, frame.end)
        &&& frame.cover(blob) == blob.subrange(start + 8, frame.end)
        &&& frame.checksum_field(blob) == blob.subrange(start, start + 8)
        &&& frame_intact(blob, frame) <==> le_at(blob, start, 8) == xxh3_64(
            blob.subrange(start + 8, frame.end),
        )
    } by {
        lemma_frame_at(blob, frames(blob)[i].start);
    }
    lemma_frame_at(blob, covered(frames(blob)));
}

/// A walk that stands at a frame's first byte reads that frame next, and one
/// that stands where no whole frame lies reads nothing.
pub proof fn law_walk_reads_what_lies_there(blob: Seq<u8>, start: int)
    requires
        0 <= start <= blob.len(),
    ensures
        frame_at(blob, start) is Some <==> whole_frame_at(blob, start),
        frame_at(blob, start) matches Some(frame) ==> {
            &&& frame.start == start
            &&& frame.end == start + 48 + le_at(blob, start + 32, 4) + le_at(blob, start + 36, 4)
            &&& frame.header.id == le_at(blob, start + 8, 16)
            &&& frame.header.payload_length == le_at(blob, start + 36, 4)
            &&& frame.header.user_headers_length == le_at(blob, start + 32, 4)
        },
{
    lemma_frame_at(blob, start);
}

/// A view shows a frame exactly where it has the frame's header, the bytes
/// behind that as payload, and the bytes behind the payload as user headers.
pub proof fn law_view_shows_the_frame(
    view: SendMessages2MessageView<'_>,
    blob: Seq<u8>,
    frame: Frame,
)
    ensures
        view.shows(blob, frame) <==> {
            let payload_end = frame.start + 48 + frame.header.payload_length;
            &&& view.header == frame.header
            &&& view.payload@ == blob.subrange(frame.start + 48, payload_end)
            &&& view.user_headers@ == blob.subrange(payload_end, frame.end)
        },
{
}

proof fn lemma_stored_in_order(blob: Seq<u8>, found: Seq<Frame>)
    requires
        forall|i: int|
            0 <= i < found.len() ==> 0 <= (#[trigger] found[i]).start && found[i].start + 8
                <= blob.len(),
    ensures
        stored_checksums(blob, found).len() == 8 * found.len(),
        forall|i: int|
            #![trigger found[i]]
            0 <= i < found.len() ==> stored_checksums(blob, found).subrange(8 * i, 8 * i + 8)
                == blob.subrange(found[i].start, found[i].start + 8),
    decreases found.len(),
{
    if found.len() > 0 {
        let shorter = found.drop_last();
        lemma_stored_in_order(blob, shorter);
        let stored = stored_checksums(blob, found);
        let before = stored_checksums(blob, shorter);
        assert(found.last() == found[found.len() - 1]);
        assert forall|i: int| #![trigger found[i]] 0 <= i < found.len() implies stored.subrange(
            8 * i,
            8 * i + 8,
        ) == blob.subrange(found[i].start, found[i].start + 8) by {
            if i < shorter.len() {
                assert(shorter[i] == found[i]);
                assert(stored.subrange(8 * i, 8 * i + 8) =~= before.subrange(8 * i, 8 * i + 8));
            } else {
                assert(stored.subrange(8 * i, 8 * i + 8) =~= blob.subrange(
                    found[i].start,
                    found[i].start + 8,
                ));
            }
        }
    }
}

/// The batch checksum is the hash of the command header's wire form without
/// the checksum itself, up to the message count, followed by the eight stored
/// checksum bytes of every frame, in order.
pub proof fn law_batch_checksum_covers(header: SendMessages2Header, blob: Seq<u8>, hashed: Seq<u8>)
    requires
        hashed.len() == 44 + 8 * frames(blob).len(),
        hashed.subrange(0, 40) == header_bytes(header).subrange(0, 40),
        hashed.subrange(40, 44) == header_bytes(header).subrange(48, 52),
        forall|i: int|
            #![trigger frames(blob)[i]]
            0 <= i < frames(blob).len() ==> hashed.subrange(44 + 8 * i, 52 + 8 * i)
                == blob.subrange(frames(blob)[i].start, frames(blob)[i].start + 8),
    ensures
        batch_checksum(header, blob) == xxh3_64(hashed),
{
    let found = frames(blob);
    let stored = stored_checksums(blob, found);
    lemma_frames_stand_inside(blob);
    lemma_stored_in_order(blob, found);
    lemma_hashed_fields(header);
    assert forall|i: int| 0 <= i < found.len() implies #[trigger] hashed.subrange(
        44 + 8 * i,
        52 + 8 * i,
    ) == stored.subrange(8 * i, 8 * i + 8) by {
        let frame = frames(blob)[i];
        assert(found[i] == frame);
    }
    lemma_hashed_bytes(
        crate::send_messages2::checksum::header_fields(header),
        stored,
        hashed,
        found.len(),
    );
}

proof fn lemma_frames_stand_inside(blob: Seq<u8>)
    ensures
        forall|i: int|
            0 <= i < frames(blob).len() ==> 0 <= (#[trigger] frames(blob)[i]).start
                && frames(blob)[i].start + 8 <= blob.len(),
{
    law_frames_lie_end_to_end(blob);
}

proof fn lemma_hashed_fields(header: SendMessages2Header)
    ensures
        ({
            let fields = crate::send_messages2::checksum::header_fields(header);
            &&& fields.len() == 44
            &&& fields.subrange(0, 40) == header_bytes(header).subrange(0, 40)
            &&& fields.subrange(40, 44) == header_bytes(header).subrange(48, 52)
        }),
{
    lemma_header_parts(header);
    let fields = crate::send_messages2::checksum::header_fields(header);
    let wire = header_bytes(header);
    assert(fields.subrange(0, 40) =~= wire.subrange(0, 40));
    assert(fields.subrange(40, 44) =~= wire.subrange(48, 52));
}

proof fn lemma_hashed_bytes(fields: Seq<u8>, stored: Seq<u8>, hashed: Seq<u8>, count: nat)
    requires
        fields.len() == 44,
        stored.len() == 8 * count,
        hashed.len() == 44 + 8 * count,
        hashed.subrange(0, 40) == fields.subrange(0, 40),
        hashed.subrange(40, 44) == fields.subrange(40, 44),
        forall|i: int|
            0 <= i < count ==> #[trigger] hashed.subrange(44 + 8 * i, 52 + 8 * i)
                == stored.subrange(8 * i, 8 * i + 8),
    ensures
        hashed == fields + stored,
{
    let all = fields + stored;
    assert forall|k: int| 0 <= k < hashed.len() implies hashed[k] == all[k] by {
        if k < 40 {
            assert(hashed[k] == hashed.subrange(0, 40)[k]);
            assert(fields[k] == fields.subrange(0, 40)[k]);
        } else if k < 44 {
            assert(hashed[k] == hashed.subrange(40, 44)[k - 40]);
            assert(fields[k] == fields.subrange(40, 44)[k - 40]);
        } else {
            let i = (k - 44) / 8;
            let r = (k - 44) % 8;
            assert(0 <= i < count);
            assert(hashed[k] == hashed.subrange(44 + 8 * i, 52 + 8 * i)[r]);
            assert(stored[k - 44] == stored.subrange(8 * i, 8 * i + 8)[r]);
        }
    }
    assert(hashed =~= all);
}

/// A batch is cut from a body by its command header: where the body is as long
/// as the header announces, the blob is what lies between the two.
pub proof fn law_batch_ends_where_its_header_says(body: Seq<u8>)
    ensures
        split_batch(body) is Some <==> body.len() >= 256 && 256 <= le_at(body, 32, 8)
            <= body.len(),
        split_batch(body) matches Some((header, blob)) ==> {
            &&& decoded_header(body) == Some(header)
            &&& header.batch_length == le_at(body, 32, 8)
            &&& blob == body.subrange(256, le_at(body, 32, 8) as int)
        },
        split_batch(body) is None ==> decoded_batch(body) == Err::<
            (SendMessages2Header, Seq<u8>),
            _,
        >(IggyError::InvalidCommand),
        decoded_batch(body) matches Ok(batch) ==> split_batch(body) == Some(batch),
{
    law_command_header_is_read_in_place(body);
}

proof fn lemma_first_damaged(blob: Seq<u8>, found: Seq<Frame>, i: int)
    requires
        0 <= i < found.len(),
        !frame_intact(blob, found[i]),
        forall|j: int| 0 <= j < i ==> frame_intact(blob, #[trigger] found[j]),
    ensures
        first_damaged(blob, found) == Some(found[i]),
    decreases found.len(),
{
    if i > 0 {
        assert(frame_intact(blob, found[0]));
        let rest = found.drop_first();
        assert(rest[i - 1] == found[i]);
        assert forall|j: int| 0 <= j < i - 1 implies frame_intact(blob, #[trigger] rest[j]) by {
            assert(rest[j] == found[j + 1]);
        }
        lemma_first_damaged(blob, rest, i - 1);
    }
}

proof fn lemma_none_damaged(blob: Seq<u8>, found: Seq<Frame>)
    requires
        forall|j: int| 0 <= j < found.len() ==> frame_intact(blob, #[trigger] found[j]),
    ensures
        first_damaged(blob, found) is None,
    decreases found.len(),
{
    if found.len() > 0 {
        let rest = found.drop_first();
        assert forall|j: int| 0 <= j < rest.len() implies frame_intact(
            blob,
            #[trigger] rest[j],
        ) by {
            assert(rest[j] == found[j + 1]);
        }
        assert(frame_intact(blob, found[0]));
        lemma_none_damaged(blob, rest);
    }
}

/// The first message whose stored checksum is not the hash of the rest of its
/// frame is the one that is reported: with what is stored, with what was
/// computed, and under the offset that it has in the partition.
pub proof fn law_first_damaged_message_is_reported(
    body: Seq<u8>,
    header: SendMessages2Header,
    blob: Seq<u8>,
    i: int,
)
    requires
        split_batch(body) == Some((header, blob)),
        0 <= i < frames(blob).len(),
        ({
            let frame = frames(blob)[i];
            le_at(blob, frame.start, 8) != xxh3_64(blob.subrange(frame.start + 8, frame.end))
        }),
        forall|j: int|
            #![trigger frames(blob)[j]]
            0 <= j < i ==> le_at(blob, frames(blob)[j].start, 8) == xxh3_64(
                blob.subrange(frames(blob)[j].start + 8, frames(blob)[j].end),
            ),
    ensures
        ({
            let frame = frames(blob)[i];
            decoded_batch(body) == Err::<(SendMessages2Header, Seq<u8>), _>(
                IggyError::InvalidMessageChecksum(
                    frame.header.checksum,
                    xxh3_64(blob.subrange(frame.start + 8, frame.end)),
                    ((header.base_offset + le_at(blob, frame.start + 24, 4))
                        % 0x1_0000_0000_0000_0000) as u64,
                ),
            )
        }),
{
    law_frames_lie_end_to_end(blob);
    assert(!frame_intact(blob, frames(blob)[i]));
    lemma_first_damaged(blob, frames(blob), i);
}

/// A batch whose messages are intact is refused as malformed where they are
/// not as many as the header says or do not fill the blob, and for its batch
/// checksum where that is wrong; else it decodes.
pub proof fn law_intact_messages_leave_three_outcomes(
    body: Seq<u8>,
    header: SendMessages2Header,
    blob: Seq<u8>,
)
    requires
        split_batch(body) == Some((header, blob)),
        forall|j: int|
            #![trigger frames(blob)[j]]
            0 <= j < frames(blob).len() ==> le_at(blob, frames(blob)[j].start, 8) == xxh3_64(
                blob.subrange(frames(blob)[j].start + 8, frames(blob)[j].end),
            ),
    ensures
        decoded_batch(body) == (if frames(blob).len() != header.message_count || covered(
            frames(blob),
        ) != blob.len() {
            Err::<(SendMessages2Header, Seq<u8>), _>(IggyError::InvalidCommand)
        } else if header.batch_checksum != batch_checksum(header, blob) {
            Err(
                IggyError::InvalidBatchChecksum(
                    header.batch_checksum,
                    batch_checksum(header, blob),
                    header.base_offset,
                ),
            )
        } else {
            Ok((header, blob))
        }),
{
    law_frames_lie_end_to_end(blob);
    lemma_none_damaged(blob, frames(blob));
}

/// A prepare is read between its 256-byte header and the end that the header
/// announces: what lies there decodes as any batch does, and without a header,
/// or with one that announces less than itself or more than there is, it is
/// malformed. The trusted decode makes the same cut and looks at no checksum.
pub proof fn law_prepare_is_read_behind_its_header(bytes: Seq<u8>, prepare: Option<PrepareHeader>)
    ensures
        ({
            let size: int = match prepare {
                Some(header) => header.size as int,
                None => 0,
            };
            if 256 <= size <= bytes.len() {
                &&& validated_prepare(bytes, prepare) == decoded_batch(bytes.subrange(256, size))
                &&& trusted_prepare(bytes, prepare) == (match split_batch(
                    bytes.subrange(256, size),
                ) {
                    Some(batch) => Ok::<_, IggyError>(batch),
                    None => Err(IggyError::InvalidCommand),
                })
            } else {
                &&& validated_prepare(bytes, prepare) == Err::<
                    (SendMessages2Header, Seq<u8>),
                    _,
                >(IggyError::InvalidCommand)
                &&& trusted_prepare(bytes, prepare) == Err::<(SendMessages2Header, Seq<u8>), _>(
                    IggyError::InvalidCommand,
                )
            }
        }),
{
}

/// A batch travels behind its request's header, which keeps all but its size:
/// the command header, the blob, and zeros up to the announced length. Only a
/// frame that its size field cannot hold is refused.
pub proof fn law_request_frame_holds_the_batch(
    request_header: RequestHeader,
    header: SendMessages2Header,
    blob: Seq<u8>,
)
    requires
        header.batch_length >= 256 + blob.len(),
    ensures
        request_of(request_header, header, blob) is Some <==> 256 + header.batch_length
            <= u32::MAX,
        request_of(request_header, header, blob) matches Some((framed, body)) ==> {
            &&& framed.size == 256 + header.batch_length
            &&& framed == (RequestHeader { size: framed.size, ..request_header })
            &&& body.len() == header.batch_length
            &&& body.subrange(0, 256) == header_bytes(header)
            &&& body.subrange(256, 256int + blob.len()) == blob
            &&& forall|i: int| 256 + blob.len() <= i < body.len() ==> body[i] == 0
        },
{
    lemma_header_layout(header);
    match request_of(request_header, header, blob) {
        Some((_, body)) => {
            assert(body.subrange(0, 256) =~= header_bytes(header));
            assert(body.subrange(256, 256int + blob.len()) =~= blob);
        },
        None => {},
    }
}

} // verus!
