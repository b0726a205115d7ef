//! Message frames as bytes, and what a walk reads back from them.
use crate::codec::{le_bytes, push_le};
use crate::hash::{xxh3_64, xxh3_oneshot};
use crate::send_messages2::checksum::{first_damaged, frame_intact};
use crate::send_messages2::frames::{
    covered, decoded_message_header, frame_at, frames, frames_from, Frame,
    SendMessages2MessageHeader, MESSAGE_HEADER_SIZE,
};
use vstd::prelude::*;

verus! {

/// What one frame holds.
pub ghost struct Content {
    pub id: u128,
    pub offset_delta: u32,
    pub timestamp_delta: u32,
    pub payload: Seq<u8>,
    pub user_headers: Seq<u8>,
}

impl Content {
    /// Both lengths fit their fields.
    pub open spec fn fits(self) -> bool {
        self.payload.len() <= u32::MAX && self.user_headers.len() <= u32::MAX
    }

    /// All bytes of the frame behind its checksum.
    pub open spec fn cover(self) -> Seq<u8> {
        le_bytes(self.id as nat, 16) + le_bytes(self.offset_delta as nat, 4) + le_bytes(
            self.timestamp_delta as nat,
            4,
        ) + le_bytes(self.user_headers.len(), 4) + le_bytes(self.payload.len(), 4) + le_bytes(0, 8)
            + self.payload + self.user_headers
    }

    /// The bytes of the frame: the hash of its cover, then the cover.
    pub open spec fn frame(self) -> Seq<u8> {
        le_bytes(xxh3_64(self.cover()) as nat, 8) + self.cover()
    }

    /// Bytes of the frame.
    pub open spec fn size(self) -> int {
        MESSAGE_HEADER_SIZE + self.payload.len() + self.user_headers.len()
    }

    /// The header that the frame begins with.
    pub open spec fn header(self) -> SendMessages2MessageHeader {
        SendMessages2MessageHeader {
            checksum: xxh3_64(self.cover()),
            id: self.id,
            offset_delta: self.offset_delta,
            timestamp_delta: self.timestamp_delta,
            user_headers_length: self.user_headers.len() as u32,
            payload_length: self.payload.len() as u32,
        }
    }
}

/// The frames of `contents`, one after the other.
pub open spec fn blob_of(contents: Seq<Content>) -> Seq<u8>
    decreases contents.len(),
{
    if contents.len() == 0 {
        Seq::empty()
    } else {
        blob_of(contents.drop_last()) + contents.last().frame()
    }
}

/// Bytes of the frames of `contents`.
pub open spec fn blob_size(contents: Seq<Content>) -> int
    decreases contents.len(),
{
    if contents.len() == 0 {
        0
    } else {
        blob_size(contents.drop_last()) + contents.last().size()
    }
}

/// Whether every one of `contents` fits its frame.
pub open spec fn all_fit(contents: Seq<Content>) -> bool {
    forall|i: int| 0 <= i < contents.len() ==> (#[trigger] contents[i]).fits()
}

/// The frame of `contents[i]` in the blob of `contents`.
pub open spec fn frame_of_content(contents: Seq<Content>, i: int) -> Frame {
    Frame {
        header: contents[i].header(),
        start: blob_size(contents.take(i)),
        end: blob_size(contents.take(i + 1)),
    }
}

proof fn lemma_frame_layout(content: Content)
    ensures
        content.cover().len() == content.size() - 8,
        content.frame().len() == content.size(),
        content.frame().subrange(8, content.size()) == content.cover(),
        content.frame().subrange(48, 48int + content.payload.len()) == content.payload,
        content.frame().subrange(48int + content.payload.len(), content.size())
            == content.user_headers,
{
    crate::codec::lemma_le_bytes_len(xxh3_64(content.cover()) as nat, 8);
    crate::codec::lemma_le_bytes_len(content.id as nat, 16);
    crate::codec::lemma_le_bytes_len(content.offset_delta as nat, 4);
    crate::codec::lemma_le_bytes_len(content.timestamp_delta as nat, 4);
    crate::codec::lemma_le_bytes_len(content.user_headers.len(), 4);
    crate::codec::lemma_le_bytes_len(content.payload.len(), 4);
    crate::codec::lemma_le_bytes_len(0, 8);
    assert(content.frame().subrange(8, content.size()) =~= content.cover());
    assert(content.frame().subrange(48, 48int + content.payload.len()) =~= content.payload);
    assert(content.frame().subrange(48int + content.payload.len(), content.size())
        =~= content.user_headers);
}

/// A frame's header reads back, whatever follows the frame.
proof fn lemma_frame_header_round_trip(content: Content, rest: Seq<u8>)
    requires
        content.fits(),
    ensures
        decoded_message_header(content.frame() + rest) == Some(content.header()),
{
    let checksum = xxh3_64(content.cover());
    lemma_frame_layout(content);
    crate::codec::lemma_le_limits();
    crate::codec::lemma_le_read_of_write(checksum as nat, 8);
    crate::codec::lemma_le_read_of_write(content.id as nat, 16);
    crate::codec::lemma_le_read_of_write(content.offset_delta as nat, 4);
    crate::codec::lemma_le_read_of_write(content.timestamp_delta as nat, 4);
    crate::codec::lemma_le_read_of_write(content.user_headers.len(), 4);
    crate::codec::lemma_le_read_of_write(content.payload.len(), 4);
    crate::codec::lemma_le_read_of_write(0, 8);
    let bytes = content.frame() + rest;
    assert(bytes.subrange(0, 8) =~= le_bytes(checksum as nat, 8));
    assert(bytes.subrange(8, 24) =~= le_bytes(content.id as nat, 16));
    assert(bytes.subrange(24, 28) =~= le_bytes(content.offset_delta as nat, 4));
    assert(bytes.subrange(28, 32) =~= le_bytes(content.timestamp_delta as nat, 4));
    assert(bytes.subrange(32, 36) =~= le_bytes(content.user_headers.len(), 4));
    assert(bytes.subrange(36, 40) =~= le_bytes(content.payload.len(), 4));
    assert(bytes.subrange(40, 48) =~= le_bytes(0, 8));
}

pub proof fn lemma_blob_size(contents: Seq<Content>)
    ensures
        blob_of(contents).len() == blob_size(contents),
        blob_size(contents) >= MESSAGE_HEADER_SIZE * contents.len(),
    decreases contents.len(),
{
    if contents.len() > 0 {
        lemma_blob_size(contents.drop_last());
        lemma_frame_layout(contents.last());
    }
}

/// The blob of the first contents begins the blob of all.
proof fn lemma_blob_prefix(contents: Seq<Content>, i: int)
    requires
        0 <= i <= contents.len(),
    ensures
        blob_size(contents.take(i)) <= blob_size(contents),
        blob_of(contents).subrange(0, blob_size(contents.take(i))) == blob_of(contents.take(i)),
    decreases contents.len() - i,
{
    lemma_blob_size(contents);
    lemma_blob_size(contents.take(i));
    if i == contents.len() {
        assert(contents.take(i) =~= contents);
        assert(blob_of(contents).subrange(0, blob_size(contents)) =~= blob_of(contents));
    } else {
        let shorter = contents.drop_last();
        lemma_blob_prefix(shorter, i);
        lemma_blob_size(shorter);
        lemma_frame_layout(contents.last());
        assert(shorter.take(i) =~= contents.take(i));
        assert(blob_of(contents).subrange(0, blob_size(contents.take(i))) =~= blob_of(
            shorter,
        ).subrange(0, blob_size(contents.take(i))));
    }
}

proof fn lemma_take_step(contents: Seq<Content>, i: int)
    requires
        0 <= i < contents.len(),
    ensures
        blob_of(contents.take(i + 1)) == blob_of(contents.take(i)) + contents[i].frame(),
        blob_size(contents.take(i + 1)) == blob_size(contents.take(i)) + contents[i].size(),
{
    assert(contents.take(i + 1).drop_last() =~= contents.take(i));
}

/// The bytes of the frame of `contents[i]` lie where they are looked for.
proof fn lemma_frame_bytes(contents: Seq<Content>, i: int)
    requires
        0 <= i < contents.len(),
    ensures
        ({
            let blob = blob_of(contents);
            let start = blob_size(contents.take(i));
            let end = blob_size(contents.take(i + 1));
            &&& 0 <= start
            &&& end == start + contents[i].size()
            &&& end <= blob.len()
            &&& blob.subrange(start, end) == contents[i].frame()
        }),
{
    let blob = blob_of(contents);
    let start = blob_size(contents.take(i));
    let end = blob_size(contents.take(i + 1));
    lemma_blob_prefix(contents, i + 1);
    lemma_blob_size(contents);
    lemma_blob_size(contents.take(i));
    lemma_take_step(contents, i);
    lemma_frame_layout(contents[i]);
    let longer = blob_of(contents.take(i + 1));
    assert(blob.subrange(start, end) =~= blob.subrange(0, end).subrange(start, end));
    assert(longer.subrange(start, end) =~= contents[i].frame());
}

/// A frame that lies in a blob is found there, and its bytes are the
/// content's.
proof fn lemma_frame_in_blob(blob: Seq<u8>, content: Content, start: int)
    requires
        content.fits(),
        0 <= start,
        start + content.size() <= blob.len(),
        blob.subrange(start, start + content.size()) == content.frame(),
    ensures
        ({
            let frame = Frame { header: content.header(), start, end: start + content.size() };
            &&& frame_at(blob, start) == Some(frame)
            &&& frame.cover(blob) == content.cover()
            &&& frame.payload(blob) == content.payload
            &&& frame.user_headers(blob) == content.user_headers
        }),
{
    let end = start + content.size();
    let own = blob.subrange(start, end);
    let payload_len: int = content.payload.len() as int;
    lemma_frame_layout(content);
    let rest = blob.subrange(end, blob.len() as int);
    assert(blob.subrange(start, blob.len() as int) =~= content.frame() + rest);
    lemma_frame_header_round_trip(content, rest);
    assert(blob.subrange(start + 8, end) =~= own.subrange(8, content.size()));
    assert(blob.subrange(start + 48, start + 48 + payload_len) =~= own.subrange(
        48,
        48 + payload_len,
    ));
    assert(blob.subrange(start + 48 + payload_len, end) =~= own.subrange(
        48 + payload_len,
        content.size(),
    ));
}

/// Where the frame of `contents[i]` begins, that frame is found, and its
/// bytes are the content's.
pub proof fn lemma_frame_found(contents: Seq<Content>, i: int)
    requires
        0 <= i < contents.len(),
        all_fit(contents),
    ensures
        ({
            let blob = blob_of(contents);
            let frame = frame_of_content(contents, i);
            &&& frame_at(blob, frame.start) == Some(frame)
            &&& frame.cover(blob) == contents[i].cover()
            &&& frame.payload(blob) == contents[i].payload
            &&& frame.user_headers(blob) == contents[i].user_headers
            &&& 0 <= frame.start < frame.end <= blob.len()
        }),
{
    lemma_frame_bytes(contents, i);
    lemma_frame_in_blob(blob_of(contents), contents[i], blob_size(contents.take(i)));
}

/// The walk from the frame of `contents[i]` on finds the remaining frames.
proof fn lemma_frames_found_from(contents: Seq<Content>, i: int)
    requires
        0 <= i <= contents.len(),
        all_fit(contents),
    ensures
        frames_from(blob_of(contents), blob_size(contents.take(i))) == Seq::new(
            (contents.len() - i) as nat,
            |k: int| frame_of_content(contents, i + k),
        ),
        first_damaged(
            blob_of(contents),
            frames_from(blob_of(contents), blob_size(contents.take(i))),
        ) is None,
    decreases contents.len() - i,
{
    let blob = blob_of(contents);
    let expected = Seq::new(
        (contents.len() - i) as nat,
        |k: int| frame_of_content(contents, i + k),
    );
    lemma_blob_size(contents);
    if i == contents.len() {
        assert(contents.take(i) =~= contents);
        assert(frames_from(blob, blob_size(contents.take(i))) =~= expected);
    } else {
        lemma_frame_found(contents, i);
        lemma_frames_found_from(contents, i + 1);
        let frame = frame_of_content(contents, i);
        let rest = frames_from(blob, frame.end);
        let found = frames_from(blob, frame.start);
        assert(found == seq![frame] + rest);
        assert(found =~= expected);
        assert(found.drop_first() =~= rest);
        assert(frame_intact(blob, frame));
    }
}

/// A walk over the frames of `contents` finds each of them, all intact, and
/// reaches the blob's end.
pub proof fn lemma_blob_round_trip(contents: Seq<Content>)
    requires
        all_fit(contents),
    ensures
        frames(blob_of(contents)) == Seq::new(
            contents.len(),
            |k: int| frame_of_content(contents, k),
        ),
        first_damaged(blob_of(contents), frames(blob_of(contents))) is None,
        covered(frames(blob_of(contents))) == blob_of(contents).len(),
{
    lemma_frames_found_from(contents, 0);
    lemma_blob_size(contents);
    assert(contents.take(0) =~= Seq::empty());
    assert(contents.take(contents.len() as int) =~= contents);
    assert(frames(blob_of(contents)) =~= Seq::new(
        contents.len(),
        |k: int| frame_of_content(contents, k),
    ));
}

/// Appends the frame of a message.
pub(crate) fn push_frame(
    out: &mut Vec<u8>,
    id: u128,
    offset_delta: u32,
    timestamp_delta: u32,
    payload: &[u8],
    user_headers: &[u8],
)
    ensures
        final(out)@ == old(out)@ + (Content {
            id,
            offset_delta,
            timestamp_delta,
            payload: payload@,
            user_headers: user_headers@,
        }).frame(),
{
    let ghost content = Content {
        id,
        offset_delta,
        timestamp_delta,
        payload: payload@,
        user_headers: user_headers@,
    };
    let ghost before = out@;
    let mut cover: Vec<u8> = Vec::new();
    push_le(&mut cover, id, 16);
    push_le(&mut cover, offset_delta as u128, 4);
    push_le(&mut cover, timestamp_delta as u128, 4);
    push_le(&mut cover, user_headers.len() as u128, 4);
    push_le(&mut cover, payload.len() as u128, 4);
    push_le(&mut cover, 0, 8);
    cover.extend_from_slice(payload);
    cover.extend_from_slice(user_headers);
    assert(cover@ =~= content.cover());
    let checksum: u64 = xxh3_oneshot(cover.as_slice());
    push_le(out, checksum as u128, 8);
    out.extend_from_slice(cover.as_slice());
    assert(out@ =~= before + content.frame());
}

} // verus!
