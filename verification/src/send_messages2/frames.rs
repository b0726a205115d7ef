//! The message frames of a blob.
use crate::codec::{le_at, read_u128, read_u32, read_u64};
use crate::error::IggyError;
use crate::send_messages2::header::SendMessages2Header;
use vstd::prelude::*;

verus! {

/// Bytes of a frame's header.
pub const MESSAGE_HEADER_SIZE: usize = 48;

/// What a frame says of its message.
#[derive(Debug, Clone, Copy, PartialEq, Eq, Structural)]
pub struct SendMessages2MessageHeader {
    /// Hash of all that follows this field in the frame.
    pub checksum: u64,
    pub id: u128,
    pub offset_delta: u32,
    /// Microsecond delta from `SendMessages2Header::origin_timestamp`.
    ///
    /// This is stored in `u32`, which limits a single batch to roughly
    /// 71.6 minutes of origin timestamp span.
    pub timestamp_delta: u32,
    pub user_headers_length: u32,
    pub payload_length: u32,
}

/// The frame header that `bytes` begin with. There is none where they are too
/// few or where the reserved field is not zero.
pub open spec fn decoded_message_header(bytes: Seq<u8>) -> Option<SendMessages2MessageHeader> {
    if bytes.len() < MESSAGE_HEADER_SIZE || le_at(bytes, 40, 8) != 0 {
        None
    } else {
        Some(
            SendMessages2MessageHeader {
                checksum: le_at(bytes, 0, 8) as u64,
                id: le_at(bytes, 8, 16) as u128,
                offset_delta: le_at(bytes, 24, 4) as u32,
                timestamp_delta: le_at(bytes, 28, 4) as u32,
                user_headers_length: le_at(bytes, 32, 4) as u32,
                payload_length: le_at(bytes, 36, 4) as u32,
            },
        )
    }
}

impl SendMessages2MessageHeader {
    /// Bytes of the whole frame.
    pub open spec fn frame_size(self) -> int {
        MESSAGE_HEADER_SIZE + self.user_headers_length + self.payload_length
    }

    pub(crate) fn decode(bytes: &[u8]) -> (header: Result<Self, IggyError>)
        ensures
            header == (match decoded_message_header(bytes@) {
                Some(found) => Ok::<Self, IggyError>(found),
                None => Err(IggyError::InvalidCommand),
            }),
    {
        if bytes.len() < MESSAGE_HEADER_SIZE {
            return Err(IggyError::InvalidCommand);
        }
        let reserved: u64 = read_u64(bytes, 40)?;
        if reserved != 0 {
            return Err(IggyError::InvalidCommand);
        }
        Ok(
            SendMessages2MessageHeader {
                checksum: read_u64(bytes, 0)?,
                id: read_u128(bytes, 8)?,
                offset_delta: read_u32(bytes, 24)?,
                timestamp_delta: read_u32(bytes, 28)?,
                user_headers_length: read_u32(bytes, 32)?,
                payload_length: read_u32(bytes, 36)?,
            },
        )
    }

    /// Bytes of the whole frame.
    pub fn total_size(&self) -> (size: usize)
        requires
            self.frame_size() <= usize::MAX,
        ensures
            size == self.frame_size(),
    {
        MESSAGE_HEADER_SIZE + self.user_headers_length as usize + self.payload_length as usize
    }
}

/// One frame of a blob and where it lies.
pub ghost struct Frame {
    pub header: SendMessages2MessageHeader,
    pub start: int,
    pub end: int,
}

impl Frame {
    /// The bytes that the frame's checksum covers: all but the checksum.
    pub open spec fn cover(self, blob: Seq<u8>) -> Seq<u8> {
        blob.subrange(self.start + 8, self.end)
    }

    /// The frame's checksum field as it lies in the blob.
    pub open spec fn checksum_field(self, blob: Seq<u8>) -> Seq<u8> {
        blob.subrange(self.start, self.start + 8)
    }

    /// The message's payload.
    pub open spec fn payload(self, blob: Seq<u8>) -> Seq<u8> {
        blob.subrange(
            self.start + MESSAGE_HEADER_SIZE,
            self.start + MESSAGE_HEADER_SIZE + self.header.payload_length,
        )
    }

    /// The message's user headers, which end the frame.
    pub open spec fn user_headers(self, blob: Seq<u8>) -> Seq<u8> {
        blob.subrange(self.start + MESSAGE_HEADER_SIZE + self.header.payload_length, self.end)
    }
}

/// The frame at `position`, where a whole one lies there.
pub open spec fn frame_at(blob: Seq<u8>, position: int) -> Option<Frame> {
    if 0 <= position < blob.len() {
        match decoded_message_header(blob.subrange(position, blob.len() as int)) {
            Some(header) => if position + header.frame_size() <= blob.len() {
                Some(Frame { header, start: position, end: position + header.frame_size() })
            } else {
                None
            },
            None => None,
        }
    } else {
        None
    }
}

/// The frames from `position` on, up to the first place where no whole frame
/// lies.
pub open spec fn frames_from(blob: Seq<u8>, position: int) -> Seq<Frame>
    decreases blob.len() - position,
{
    match frame_at(blob, position) {
        Some(frame) => seq![frame] + frames_from(blob, frame.end),
        None => Seq::empty(),
    }
}

/// All frames of `blob`.
pub open spec fn frames(blob: Seq<u8>) -> Seq<Frame> {
    frames_from(blob, 0)
}

/// How many bytes of the blob `frames`, which start at its front, take up.
pub open spec fn covered(frames: Seq<Frame>) -> int {
    if frames.len() == 0 {
        0
    } else {
        frames.last().end
    }
}

/// A decoded batch that borrows its blob.
#[derive(Debug, Clone, Copy)]
pub struct SendMessages2Ref<'a> {
    pub header: SendMessages2Header,
    /// The bytes behind the command header.
    pub blob: &'a [u8],
}

/// One message of a batch.
#[derive(Debug, Clone, Copy)]
pub struct SendMessages2MessageView<'a> {
    pub header: SendMessages2MessageHeader,
    pub user_headers: &'a [u8],
    pub payload: &'a [u8],
}

impl<'a> SendMessages2MessageView<'a> {
    /// Whether this view shows the message of `frame`.
    pub open spec fn shows(self, blob: Seq<u8>, frame: Frame) -> bool {
        &&& self.header == frame.header
        &&& self.payload@ == frame.payload(blob)
        &&& self.user_headers@ == frame.user_headers(blob)
    }
}

/// One message of a batch, and where its frame lies in the blob.
#[derive(Debug, Clone, Copy)]
pub struct SendMessages2MessageViewWithOffsets<'a> {
    pub message: SendMessages2MessageView<'a>,
    pub start: usize,
    pub end: usize,
}

/// Walks the messages of a blob.
pub struct SendMessages2Iterator<'a> {
    blob: &'a [u8],
    position: usize,
}

/// Walks the messages of a blob and tells where each frame lies.
pub struct SendMessages2IteratorWithOffsets<'a> {
    blob: &'a [u8],
    position: usize,
}

impl<'a> SendMessages2Ref<'a> {
    /// A walk over the batch's messages.
    pub fn iter(&self) -> (walk: SendMessages2Iterator<'a>)
        ensures
            walk.blob_bytes() == self.blob@,
            walk.at() == 0,
    {
        SendMessages2Iterator { blob: self.blob, position: 0 }
    }

    /// A walk over the batch's messages that tells where each frame lies.
    pub fn iter_with_offsets(&self) -> (walk: SendMessages2IteratorWithOffsets<'a>)
        ensures
            walk.blob_bytes() == self.blob@,
            walk.at() == 0,
    {
        SendMessages2IteratorWithOffsets { blob: self.blob, position: 0 }
    }

    /// The bytes behind the command header.
    pub fn blob(&self) -> (blob: &'a [u8])
        ensures
            blob@ == self.blob@,
    {
        self.blob
    }

    /// How many messages the header announces.
    pub fn message_count(&self) -> (count: u32)
        ensures
            count == self.header.message_count,
    {
        self.header.message_count
    }
}

impl<'a> SendMessages2Iterator<'a> {
    /// The blob that is walked.
    pub closed spec fn blob_bytes(&self) -> Seq<u8> {
        self.blob@
    }

    /// Where the next frame is looked for.
    pub closed spec fn at(&self) -> int {
        self.position as int
    }

    /// The next message. Where no whole frame lies, the walk stays there.
    pub fn next(&mut self) -> (view: Option<SendMessages2MessageView<'a>>)
        ensures
            final(self).blob_bytes() == old(self).blob_bytes(),
            match frame_at(old(self).blob_bytes(), old(self).at()) {
                Some(frame) => {
                    &&& view matches Some(shown)
                    &&& shown.shows(old(self).blob_bytes(), frame)
                    &&& final(self).at() == frame.end
                },
                None => view is None && final(self).at() == old(self).at(),
            },
    {
        match frame_of(self.blob, self.position) {
            Some(framed) => {
                self.position = framed.end;
                Some(framed.message)
            },
            None => None,
        }
    }
}

impl<'a> SendMessages2IteratorWithOffsets<'a> {
    /// The blob that is walked.
    pub closed spec fn blob_bytes(&self) -> Seq<u8> {
        self.blob@
    }

    /// Where the next frame is looked for.
    pub closed spec fn at(&self) -> int {
        self.position as int
    }

    /// The next message and its place. Where no whole frame lies, the walk
    /// stays there.
    pub fn next(&mut self) -> (view: Option<SendMessages2MessageViewWithOffsets<'a>>)
        ensures
            final(self).blob_bytes() == old(self).blob_bytes(),
            match frame_at(old(self).blob_bytes(), old(self).at()) {
                Some(frame) => {
                    &&& view matches Some(shown)
                    &&& shown.message.shows(old(self).blob_bytes(), frame)
                    &&& shown.start == frame.start
                    &&& shown.end == frame.end
                    &&& final(self).at() == frame.end
                },
                None => view is None && final(self).at() == old(self).at(),
            },
    {
        match frame_of(self.blob, self.position) {
            Some(framed) => {
                self.position = framed.end;
                Some(framed)
            },
            None => None,
        }
    }
}

/// The message whose frame starts at `position`.
fn frame_of<'a>(blob: &'a [u8], position: usize) -> (framed: Option<
    SendMessages2MessageViewWithOffsets<'a>,
>)
    ensures
        match frame_at(blob@, position as int) {
            Some(frame) => {
                &&& framed matches Some(shown)
                &&& shown.message.shows(blob@, frame)
                &&& shown.start == frame.start
                &&& shown.end == frame.end
            },
            None => framed is None,
        },
{
    if position >= blob.len() {
        return None;
    }
    let header = match SendMessages2MessageHeader::decode(&blob[position..blob.len()]) {
        Ok(header) => header,
        Err(_) => return None,
    };
    let payload_start: usize = position + MESSAGE_HEADER_SIZE;
    let room: usize = blob.len() - payload_start;
    if header.payload_length as u64 > room as u64 {
        return None;
    }
    let payload_end: usize = payload_start + header.payload_length as usize;
    let room: usize = blob.len() - payload_end;
    if header.user_headers_length as u64 > room as u64 {
        return None;
    }
    let end: usize = payload_end + header.user_headers_length as usize;
    Some(
        SendMessages2MessageViewWithOffsets {
            message: SendMessages2MessageView {
                header,
                user_headers: &blob[payload_end..end],
                payload: &blob[payload_start..payload_end],
            },
            start: position,
            end,
        },
    )
}

} // verus!
