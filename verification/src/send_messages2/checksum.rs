//! Message and batch checksums.
//!
//! A message's checksum covers the rest of its frame. The batch checksum
//! covers the header's fields and the messages' stored checksums, so it binds
//! a body only where the message checksums are verified too.
use crate::codec::{le_bytes, push_le};
use crate::error::IggyError;
use crate::hash::{
    hashed_bytes, xxh3_64, xxh3_finish, xxh3_new, xxh3_oneshot, xxh3_write,
};
use crate::send_messages2::frames::{
    covered, frame_at, frames, frames_from, Frame, SendMessages2Ref,
};
use crate::send_messages2::header::SendMessages2Header;
use twox_hash::XxHash3_64;
use vstd::prelude::*;

verus! {

/// The header fields that the batch checksum covers, in hashing order.
pub open spec fn header_fields(header: SendMessages2Header) -> Seq<u8> {
    le_bytes(header.partition_id as nat, 8) + le_bytes(header.base_offset as nat, 8) + le_bytes(
        header.base_timestamp as nat,
        8,
    ) + le_bytes(header.origin_timestamp as nat, 8) + le_bytes(header.batch_length as nat, 8)
        + le_bytes(header.message_count as nat, 4)
}

/// The stored checksum fields of `frames`, one after the other.
pub open spec fn stored_checksums(blob: Seq<u8>, frames: Seq<Frame>) -> Seq<u8>
    decreases frames.len(),
{
    if frames.len() == 0 {
        Seq::empty()
    } else {
        stored_checksums(blob, frames.drop_last()) + frames.last().checksum_field(blob)
    }
}

/// The batch checksum: the hash of the header's fields and of each message's
/// stored checksum, in message order.
pub open spec fn batch_checksum(header: SendMessages2Header, blob: Seq<u8>) -> u64 {
    xxh3_64(header_fields(header) + stored_checksums(blob, frames(blob)))
}

/// Whether the frame's stored checksum is that of its bytes.
pub open spec fn frame_intact(blob: Seq<u8>, frame: Frame) -> bool {
    frame.header.checksum == xxh3_64(frame.cover(blob))
}

/// The first of `frames` whose stored checksum is not that of its bytes.
pub open spec fn first_damaged(blob: Seq<u8>, frames: Seq<Frame>) -> Option<Frame>
    decreases frames.len(),
{
    if frames.len() == 0 {
        None
    } else if !frame_intact(blob, frames[0]) {
        Some(frames[0])
    } else {
        first_damaged(blob, frames.drop_first())
    }
}

/// What a walk that verifies every message finds: the first damaged message,
/// or that the frames do not fill the blob or are not as many as the header
/// says, or else the batch checksum.
pub open spec fn verified_checksum(header: SendMessages2Header, blob: Seq<u8>) -> Result<
    u64,
    IggyError,
> {
    match first_damaged(blob, frames(blob)) {
        Some(frame) => Err(
            IggyError::InvalidMessageChecksum(
                frame.header.checksum,
                xxh3_64(frame.cover(blob)),
                damaged_offset(header, frame),
            ),
        ),
        None => if frames(blob).len() == header.message_count && covered(frames(blob))
            == blob.len() {
            Ok(batch_checksum(header, blob))
        } else {
            Err(IggyError::InvalidCommand)
        },
    }
}

/// The offset that a damaged message is reported under, modulo 2^64.
pub open spec fn damaged_offset(header: SendMessages2Header, frame: Frame) -> u64 {
    ((header.base_offset + frame.header.offset_delta) % 0x1_0000_0000_0000_0000) as u64
}

impl SendMessages2Header {
    /// The batch checksum for this header in front of `blob`.
    pub fn checksum_for_blob(&self, blob: &[u8]) -> (checksum: u64)
        ensures
            checksum == batch_checksum(*self, blob@),
    {
        calculate_batch_checksum(self, blob)
    }
}

pub(crate) fn calculate_batch_checksum(header: &SendMessages2Header, blob: &[u8]) -> (checksum: u64)
    ensures
        checksum == batch_checksum(*header, blob@),
{
    let mut hasher: XxHash3_64 = xxh3_new();
    write_batch_header_fields(&mut hasher, header);
    let batch = SendMessages2Ref { header: *header, blob };
    let mut walk = batch.iter_with_offsets();
    let ghost mut done: Seq<Frame> = Seq::empty();
    assert(frames(blob@) =~= done + frames_from(blob@, 0));
    assert(hashed_bytes(hasher) =~= header_fields(*header) + stored_checksums(blob@, done));
    loop
        invariant
            walk.blob_bytes() == blob@,
            0 <= walk.at() <= blob@.len(),
            frames(blob@) == done + frames_from(blob@, walk.at()),
            hashed_bytes(hasher) == header_fields(*header) + stored_checksums(blob@, done),
        ensures
            frames(blob@) == done,
            hashed_bytes(hasher) == header_fields(*header) + stored_checksums(blob@, done),
        decreases blob@.len() - walk.at(),
    {
        let ghost before = walk.at();
        match walk.next() {
            None => {
                assert(frames(blob@) =~= done);
                break ;
            },
            Some(framed) => {
                xxh3_write(&mut hasher, &blob[framed.start..framed.start + 8]);
                proof {
                    let frame = frame_at(blob@, before).unwrap();
                    lemma_push_frame(blob@, done, before);
                    assert(hashed_bytes(hasher) =~= header_fields(*header) + stored_checksums(
                        blob@,
                        done.push(frame),
                    ));
                    done = done.push(frame);
                }
            },
        }
    }
    xxh3_finish(&hasher)
}

/// What a walk has behind it grows by the frame that it passes.
proof fn lemma_push_frame(blob: Seq<u8>, done: Seq<Frame>, position: int)
    requires
        frames(blob) == done + frames_from(blob, position),
        frame_at(blob, position) is Some,
    ensures
        ({
            let frame = frame_at(blob, position).unwrap();
            &&& frames(blob) == done.push(frame) + frames_from(blob, frame.end)
            &&& stored_checksums(blob, done.push(frame)) == stored_checksums(blob, done)
                + frame.checksum_field(blob)
        }),
{
    let frame = frame_at(blob, position).unwrap();
    assert(done.push(frame) + frames_from(blob, frame.end) =~= done + (seq![frame] + frames_from(
        blob,
        frame.end,
    )));
    assert(done.push(frame).drop_last() =~= done);
}

fn write_batch_header_fields(hasher: &mut XxHash3_64, header: &SendMessages2Header)
    ensures
        hashed_bytes(*final(hasher)) == hashed_bytes(*old(hasher)) + header_fields(*header),
{
    let mut fields: Vec<u8> = Vec::with_capacity(44);
    push_le(&mut fields, header.partition_id as u128, 8);
    push_le(&mut fields, header.base_offset as u128, 8);
    push_le(&mut fields, header.base_timestamp as u128, 8);
    push_le(&mut fields, header.origin_timestamp as u128, 8);
    push_le(&mut fields, header.batch_length as u128, 8);
    push_le(&mut fields, header.message_count as u128, 4);
    assert(fields@ =~= header_fields(*header));
    xxh3_write(hasher, fields.as_slice());
}

/// Verifies every message checksum of `batch` and recomputes its batch
/// checksum, in one walk.
pub fn verify_and_recompute_batch_checksum(batch: &SendMessages2Ref<'_>) -> (checksum: Result<
    u64,
    IggyError,
>)
    ensures
        checksum == verified_checksum(batch.header, batch.blob@),
{
    let blob: &[u8] = batch.blob();
    let mut hasher: XxHash3_64 = xxh3_new();
    write_batch_header_fields(&mut hasher, &batch.header);
    let mut verified: usize = 0;
    let mut end: usize = 0;
    let mut walk = batch.iter_with_offsets();
    let ghost mut done: Seq<Frame> = Seq::empty();
    assert(frames(blob@) =~= done + frames_from(blob@, 0));
    assert(hashed_bytes(hasher) =~= header_fields(batch.header) + stored_checksums(blob@, done));
    loop
        invariant
            blob@ == batch.blob@,
            walk.blob_bytes() == blob@,
            0 <= walk.at() <= blob@.len(),
            walk.at() == end,
            verified == done.len(),
            verified <= end,
            end == covered(done),
            frames(blob@) == done + frames_from(blob@, walk.at()),
            hashed_bytes(hasher) == header_fields(batch.header) + stored_checksums(blob@, done),
            first_damaged(blob@, frames(blob@)) == first_damaged(
                blob@,
                frames_from(blob@, walk.at()),
            ),
        ensures
            frames(blob@) == done,
            verified == done.len(),
            end == covered(done),
            first_damaged(blob@, frames(blob@)) is None,
            hashed_bytes(hasher) == header_fields(batch.header) + stored_checksums(blob@, done),
        decreases blob@.len() - walk.at(),
    {
        let ghost before = walk.at();
        match walk.next() {
            None => {
                assert(frames(blob@) =~= done);
                break ;
            },
            Some(framed) => {
                let ghost frame = frame_at(blob@, before).unwrap();
                let ghost rest = frames_from(blob@, before);
                assert(rest.drop_first() =~= frames_from(blob@, frame.end));
                let stored: u64 = framed.message.header.checksum;
                let expected: u64 = xxh3_oneshot(&blob[framed.start + 8..framed.end]);
                if expected != stored {
                    return Err(
                        IggyError::InvalidMessageChecksum(
                            stored,
                            expected,
                            batch.header.base_offset.wrapping_add(
                                framed.message.header.offset_delta as u64,
                            ),
                        ),
                    );
                }
                xxh3_write(&mut hasher, &blob[framed.start..framed.start + 8]);
                verified = verified + 1;
                end = framed.end;
                proof {
                    lemma_push_frame(blob@, done, before);
                    assert(hashed_bytes(hasher) =~= header_fields(batch.header) + stored_checksums(
                        blob@,
                        done.push(frame),
                    ));
                    done = done.push(frame);
                }
            },
        }
    }
    if verified as u64 != batch.message_count() as u64 || end != blob.len() {
        return Err(IggyError::InvalidCommand);
    }
    Ok(xxh3_finish(&hasher))
}

} // verus!
