//! Batches whose messages are encrypted on their way in.
//!
//! The cipher itself is the caller's: it takes the parts that
//! [`parts_to_encrypt`] lists and hands back what became of each.
use crate::buffers::{bytes_mut_extend, bytes_mut_freeze, bytes_mut_new, bytes_mut_of};
use crate::error::IggyError;
use crate::message::{Message, RequestHeader, HEADER_SIZE};
use crate::send_messages2::batch::{lemma_take_blob, request_of, sealed, SendMessages2Owned};
use crate::send_messages2::checksum::calculate_batch_checksum;
use crate::send_messages2::decode::{decode_batch_slice, decoded_batch};
use crate::send_messages2::encode::{blob_of, blob_size, lemma_blob_size, push_frame, Content};
use crate::send_messages2::frames::{
    frame_at, frames, frames_from, Frame, SendMessages2MessageView, MESSAGE_HEADER_SIZE,
};
use crate::send_messages2::header::{SendMessages2Header, COMMAND_HEADER_SIZE};
use bytes::BytesMut;
use vstd::prelude::*;

verus! {

/// The parts of a message that a cipher works on.
#[derive(Debug)]
pub struct MessageParts {
    pub payload: Vec<u8>,
    /// None where the message has no user headers.
    pub user_headers: Option<Vec<u8>>,
}

impl MessageParts {
    /// The bytes of the user headers.
    pub open spec fn user_header_bytes(self) -> Seq<u8> {
        match self.user_headers {
            Some(bytes) => bytes@,
            None => Seq::empty(),
        }
    }

    /// Whether these are the parts of the message in `frame`: empty user
    /// headers are no part of it.
    pub open spec fn of_frame(self, blob: Seq<u8>, frame: Frame) -> bool {
        &&& self.payload@ == frame.payload(blob)
        &&& self.user_headers is Some <==> frame.user_headers(blob).len() > 0
        &&& self.user_header_bytes() == frame.user_headers(blob)
    }

    fn user_headers_slice(&self) -> (slice: &[u8])
        ensures
            slice@ == self.user_header_bytes(),
    {
        match &self.user_headers {
            Some(bytes) => bytes.as_slice(),
            None => &[],
        }
    }
}

/// What became of a message's parts under the cipher.
pub type EncryptedParts = Result<MessageParts, IggyError>;

/// The user headers of the encrypted message: empty ones stay as they are.
pub open spec fn encrypted_user_headers(
    blob: Seq<u8>,
    frame: Frame,
    parts: MessageParts,
) -> Seq<u8> {
    if frame.user_headers(blob).len() == 0 {
        Seq::empty()
    } else {
        parts.user_header_bytes()
    }
}

/// What the frame of an encrypted message holds: id and deltas stay, the
/// parts are the cipher's.
pub open spec fn encrypted_content(
    blob: Seq<u8>,
    frame: Frame,
    parts: MessageParts,
) -> Content {
    Content {
        id: frame.header.id,
        offset_delta: frame.header.offset_delta,
        timestamp_delta: frame.header.timestamp_delta,
        payload: parts.payload@,
        user_headers: encrypted_user_headers(blob, frame, parts),
    }
}

/// What the frames of the encrypted messages hold.
pub open spec fn encrypted_contents(
    blob: Seq<u8>,
    frames: Seq<Frame>,
    encrypted: Seq<EncryptedParts>,
) -> Seq<Content> {
    Seq::new(frames.len(), |i: int| encrypted_content(blob, frames[i], encrypted[i]->Ok_0))
}

/// Why an encrypted message cannot be framed.
pub open spec fn encryption_error(
    blob: Seq<u8>,
    frame: Frame,
    encrypted: EncryptedParts,
) -> Option<IggyError> {
    match encrypted {
        Err(error) => Some(error),
        Ok(parts) => if encrypted_content(blob, frame, parts).fits() {
            None
        } else {
            Some(IggyError::InvalidCommand)
        },
    }
}

/// What is wrong with the first of the encrypted messages that cannot be
/// framed.
pub open spec fn encryption_errors(
    blob: Seq<u8>,
    frames: Seq<Frame>,
    encrypted: Seq<EncryptedParts>,
) -> Option<IggyError>
    decreases frames.len(),
{
    if frames.len() == 0 {
        None
    } else {
        match encryption_errors(blob, frames.drop_last(), encrypted) {
            Some(error) => Some(error),
            None => encryption_error(blob, frames.last(), encrypted[frames.len() - 1]),
        }
    }
}

/// An upper bound for the bytes of the frames that `encrypted` fill.
pub open spec fn encrypted_size(encrypted: Seq<EncryptedParts>) -> int
    decreases encrypted.len(),
{
    if encrypted.len() == 0 {
        0
    } else {
        encrypted_size(encrypted.drop_last()) + match encrypted.last() {
            Ok(parts) => MESSAGE_HEADER_SIZE + parts.payload@.len()
                + parts.user_header_bytes().len(),
            Err(_) => 0,
        }
    }
}

/// The command header in front of the encrypted blob: the batch's own, with
/// length and checksum restated.
pub open spec fn encrypted_header(
    header: SendMessages2Header,
    contents: Seq<Content>,
) -> SendMessages2Header {
    sealed(
        SendMessages2Header {
            batch_length: (COMMAND_HEADER_SIZE + blob_size(contents)) as u64,
            ..header
        },
        blob_of(contents),
    )
}

/// The request that the encrypted batch of `payload` travels in. A payload that
/// is no batch, for whatever reason, is an invalid command.
pub open spec fn encrypted_request(
    payload: Seq<u8>,
    request_header: RequestHeader,
    encrypted: Seq<EncryptedParts>,
) -> Result<(RequestHeader, Seq<u8>), IggyError> {
    match decoded_batch(payload) {
        Err(_) => Err(IggyError::InvalidCommand),
        Ok((header, blob)) => match encryption_errors(blob, frames(blob), encrypted) {
            Some(error) => Err(error),
            None => {
                let contents = encrypted_contents(blob, frames(blob), encrypted);
                match request_of(
                    request_header,
                    encrypted_header(header, contents),
                    blob_of(contents),
                ) {
                    Some(request) => Ok(request),
                    None => Err(IggyError::InvalidCommand),
                }
            },
        },
    }
}

/// Whether `parts` lists the parts of every message in `blob`, in order.
pub open spec fn lists_parts(parts: Seq<MessageParts>, blob: Seq<u8>) -> bool {
    &&& parts.len() == frames(blob).len()
    &&& forall|i: int|
        0 <= i < parts.len() ==> (#[trigger] parts[i]).of_frame(blob, frames(blob)[i])
}

/// What a cipher has to work on to encrypt the batch of `message`; a body that
/// does not decode, a damaged checksum included, is an invalid command.
pub fn parts_to_encrypt(message: &Message<RequestHeader>) -> (listed: Result<
    Vec<MessageParts>,
    IggyError,
>)
    requires
        message.wf(),
    ensures
        match decoded_batch(message.payload()) {
            Ok((_, blob)) => listed matches Ok(parts) && lists_parts(parts@, blob),
            Err(_) => listed matches Err(found) && found == IggyError::InvalidCommand,
        },
{
    let batch = match decode_batch_slice(message.request_body()) {
        Ok(batch) => batch,
        Err(_) => return Err(IggyError::InvalidCommand),
    };
    let ghost blob = batch.blob@;
    let ghost all = frames(blob);
    let mut listed: Vec<MessageParts> = Vec::new();
    let mut walk = batch.iter();
    let ghost mut done: Seq<Frame> = Seq::empty();
    assert(all =~= done + frames_from(blob, 0));
    loop
        invariant
            walk.blob_bytes() == blob,
            0 <= walk.at() <= blob.len(),
            all == frames(blob),
            all == done + frames_from(blob, walk.at()),
            listed@.len() == done.len(),
            forall|i: int|
                0 <= i < listed@.len() ==> (#[trigger] listed@[i]).of_frame(blob, done[i]),
        ensures
            all == done,
            listed@.len() == done.len(),
            forall|i: int|
                0 <= i < listed@.len() ==> (#[trigger] listed@[i]).of_frame(blob, done[i]),
        decreases blob.len() - walk.at(),
    {
        let ghost before = walk.at();
        match walk.next() {
            None => {
                assert(all =~= done);
                break ;
            },
            Some(view) => {
                let ghost frame = frame_at(blob, before).unwrap();
                listed.push(parts_of(&view));
                proof {
                    assert(done.push(frame) + frames_from(blob, frame.end) =~= done + (seq![frame]
                        + frames_from(blob, frame.end)));
                    done = done.push(frame);
                }
            },
        }
    }
    Ok(listed)
}

fn parts_of(view: &SendMessages2MessageView<'_>) -> (parts: MessageParts)
    ensures
        parts.payload@ == view.payload@,
        parts.user_headers is Some <==> view.user_headers@.len() > 0,
        parts.user_header_bytes() == view.user_headers@,
{
    let user_headers = if view.user_headers.len() == 0 {
        None
    } else {
        Some(copied(view.user_headers))
    };
    MessageParts { payload: copied(view.payload), user_headers }
}

fn copied(bytes: &[u8]) -> (copy: Vec<u8>)
    ensures
        copy@ == bytes@,
{
    let mut copy: Vec<u8> = Vec::new();
    copy.extend_from_slice(bytes);
    assert(copy@ =~= bytes@);
    copy
}

/// Whether `request` is what `expected` says.
pub open spec fn encrypts_as(
    request: Result<Message<RequestHeader>, IggyError>,
    expected: Result<(RequestHeader, Seq<u8>), IggyError>,
) -> bool {
    match expected {
        Ok((header, body)) => {
            &&& request matches Ok(encoded)
            &&& encoded.header == header
            &&& encoded.body@ == body
            &&& encoded.wf()
            &&& encoded.payload() == body
        },
        Err(error) => request matches Err(found) && found == error,
    }
}

/// Encodes the batch of `message` again as [`encrypt_batch_request`] does;
/// none where the batch decodes and `encrypted` holds fewer outcomes than it
/// has messages.
pub fn encrypt_complete_batch_request(
    message: Message<RequestHeader>,
    encrypted: &[EncryptedParts],
) -> (request: Option<Result<Message<RequestHeader>, IggyError>>)
    requires
        message.wf(),
        HEADER_SIZE + COMMAND_HEADER_SIZE + encrypted_size(encrypted@) <= isize::MAX,
    ensures
        request is None <==> (decoded_batch(message.payload()) matches Ok((_, blob))
            && encrypted@.len() < frames(blob).len()),
        request matches Some(result) ==> encrypts_as(
            result,
            encrypted_request(message.payload(), message.header, encrypted@),
        ),
{
    let complete: bool = match decode_batch_slice(message.request_body()) {
        Ok(batch) => encrypted.len() as u64 >= batch.header.message_count as u64,
        Err(_) => true,
    };
    if complete {
        Some(encrypt_batch_request(message, encrypted))
    } else {
        None
    }
}

/// Encodes the batch of `message` again with `encrypted` in place of its
/// messages' parts, every checksum and length restated.
///
/// `encrypted` holds, for each message in order, what became of the parts that
/// [`parts_to_encrypt`] lists. The first message whose encryption failed, or
/// that is too long for its frame, decides the error.
pub fn encrypt_batch_request(
    message: Message<RequestHeader>,
    encrypted: &[EncryptedParts],
) -> (request: Result<Message<RequestHeader>, IggyError>)
    requires
        message.wf(),
        decoded_batch(message.payload()) matches Ok((_, blob)) ==> encrypted@.len()
            >= frames(blob).len(),
        HEADER_SIZE + COMMAND_HEADER_SIZE + encrypted_size(encrypted@) <= isize::MAX,
    ensures
        encrypts_as(request, encrypted_request(message.payload(), message.header, encrypted@)),
{
    let batch = match decode_batch_slice(message.request_body()) {
        Ok(batch) => batch,
        Err(_) => return Err(IggyError::InvalidCommand),
    };
    let ghost blob = batch.blob@;
    let ghost all = frames(blob);
    let ghost contents = encrypted_contents(blob, all, encrypted@);
    let mut out: BytesMut = bytes_mut_new();
    let mut index: usize = 0;
    let mut walk = batch.iter();
    assert(all.take(0) =~= Seq::empty());
    assert(contents.take(0) =~= Seq::empty());
    assert(all =~= all.take(0) + frames_from(blob, 0));
    loop
        invariant
            walk.blob_bytes() == blob,
            0 <= walk.at() <= blob.len(),
            all == frames(blob),
            contents == encrypted_contents(blob, all, encrypted@),
            encrypted@.len() >= all.len(),
            decoded_batch(message.payload()) == Ok::<_, IggyError>((batch.header, blob)),
            HEADER_SIZE + COMMAND_HEADER_SIZE + encrypted_size(encrypted@) <= isize::MAX,
            index <= all.len(),
            all == all.take(index as int) + frames_from(blob, walk.at()),
            encryption_errors(blob, all.take(index as int), encrypted@) is None,
            bytes_mut_of(out) == blob_of(contents.take(index as int)),
            bytes_mut_of(out).len() <= encrypted_size(encrypted@.take(index as int)),
        ensures
            index == all.len(),
            encryption_errors(blob, all.take(index as int), encrypted@) is None,
            bytes_mut_of(out) == blob_of(contents.take(index as int)),
            bytes_mut_of(out).len() <= encrypted_size(encrypted@.take(index as int)),
        decreases blob.len() - walk.at(),
    {
        let ghost before = walk.at();
        match walk.next() {
            None => {
                assert(all =~= all.take(index as int));
                break ;
            },
            Some(view) => {
                let ghost frame = frame_at(blob, before).unwrap();
                proof {
                    assert(frames_from(blob, before)[0] == frame);
                    assert(all[index as int] == frame);
                    assert(all.take(index + 1) =~= all.take(index as int).push(frame));
                    assert(all.take(index + 1).drop_last() =~= all.take(index as int));
                    assert(all =~= all.take(index + 1) + frames_from(blob, frame.end));
                    lemma_errors_stay(blob, all, encrypted@, index + 1);
                    lemma_encrypted_size_step(encrypted@, index as int);
                }
                let parts: &MessageParts = match &encrypted[index] {
                    Ok(parts) => parts,
                    Err(error) => return Err(*error),
                };
                let payload: &[u8] = parts.payload.as_slice();
                let user_headers: &[u8] = if view.user_headers.len() == 0 {
                    &[]
                } else {
                    parts.user_headers_slice()
                };
                if payload.len() > u32::MAX as usize {
                    return Err(IggyError::InvalidCommand);
                }
                if user_headers.len() > u32::MAX as usize {
                    return Err(IggyError::InvalidCommand);
                }
                assert(user_headers@ =~= contents[index as int].user_headers);
                let mut framed: Vec<u8> = Vec::new();
                push_frame(
                    &mut framed,
                    view.header.id,
                    view.header.offset_delta,
                    view.header.timestamp_delta,
                    payload,
                    user_headers,
                );
                proof {
                    lemma_take_blob(contents, index as int);
                    lemma_blob_size(seq![contents[index as int]]);
                    reveal_with_fuel(blob_of, 2);
                    reveal_with_fuel(blob_size, 2);
                    assert(framed@ =~= contents[index as int].frame());
                    assert(seq![contents[index as int]].drop_last() =~= Seq::empty());
                    assert(blob_of(seq![contents[index as int]]) =~= framed@);
                }
                bytes_mut_extend(&mut out, framed.as_slice());
                index = index + 1;
            },
        }
    }
    proof {
        assert(all.take(index as int) =~= all);
        assert(contents.take(index as int) =~= contents);
        lemma_blob_size(contents);
        lemma_encrypted_size_monotonic(encrypted@, index as int);
    }
    let out: bytes::Bytes = bytes_mut_freeze(out);
    let out_bytes: &[u8] = crate::buffers::bytes_as_slice(&out);
    let mut header: SendMessages2Header = batch.header;
    header.batch_length = (COMMAND_HEADER_SIZE + out_bytes.len()) as u64;
    header.batch_checksum = calculate_batch_checksum(&header, out_bytes);
    assert(header == encrypted_header(batch.header, contents));
    let request_header: RequestHeader = message.header;
    SendMessages2Owned { header, blob: out }.encode_request(request_header)
}

/// An error of the first messages is the error of all.
proof fn lemma_errors_stay(
    blob: Seq<u8>,
    frames: Seq<Frame>,
    encrypted: Seq<EncryptedParts>,
    i: int,
)
    requires
        0 <= i <= frames.len(),
    ensures
        encryption_errors(blob, frames.take(i), encrypted) is Some ==> encryption_errors(
            blob,
            frames,
            encrypted,
        ) == encryption_errors(blob, frames.take(i), encrypted),
    decreases frames.len() - i,
{
    if i == frames.len() {
        assert(frames.take(i) =~= frames);
    } else {
        assert(frames.take(i + 1).drop_last() =~= frames.take(i));
        lemma_errors_stay(blob, frames, encrypted, i + 1);
    }
}

proof fn lemma_encrypted_size_step(encrypted: Seq<EncryptedParts>, i: int)
    requires
        0 <= i < encrypted.len(),
    ensures
        encrypted_size(encrypted.take(i + 1)) == encrypted_size(encrypted.take(i))
            + match encrypted[i] {
            Ok(parts) => MESSAGE_HEADER_SIZE + parts.payload@.len()
                + parts.user_header_bytes().len(),
            Err(_) => 0,
        },
        encrypted_size(encrypted.take(i + 1)) <= encrypted_size(encrypted),
{
    assert(encrypted.take(i + 1).drop_last() =~= encrypted.take(i));
    lemma_encrypted_size_monotonic(encrypted, i + 1);
}

pub(crate) proof fn lemma_encrypted_size_monotonic(encrypted: Seq<EncryptedParts>, i: int)
    requires
        0 <= i <= encrypted.len(),
    ensures
        encrypted_size(encrypted.take(i)) <= encrypted_size(encrypted),
    decreases encrypted.len() - i,
{
    if i == encrypted.len() {
        assert(encrypted.take(i) =~= encrypted);
    } else {
        assert(encrypted.take(i + 1).drop_last() =~= encrypted.take(i));
        lemma_encrypted_size_monotonic(encrypted, i + 1);
    }
}

} // verus!
