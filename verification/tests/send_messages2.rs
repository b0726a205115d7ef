//! Batches: building, decoding, checking, stamping, converting, encrypting.
use bytes::Bytes;
use iggy_core::error::IggyError;
use iggy_core::message::{Message, Operation, PrepareHeader, RequestHeader, HEADER_SIZE};
use iggy_core::namespace::IggyNamespace;
use iggy_core::send_messages2::batch::SendMessages2Owned;
use iggy_core::send_messages2::decode::{
    decode_batch_slice, decode_prepare_slice, decode_prepare_slice_trusted,
    stamp_prepare_for_persistence, verify_received_send_messages,
};
use iggy_core::send_messages2::encrypt::{
    encrypt_batch_request, encrypt_complete_batch_request, parts_to_encrypt, MessageParts,
};
use iggy_core::send_messages2::frames::MESSAGE_HEADER_SIZE;
use iggy_core::send_messages2::header::{
    SendMessages2Header, BATCH_CHECKSUM_OFFSET, COMMAND_HEADER_SIZE, PREPARE_SPLIT_POINT,
};
use iggy_core::send_messages2::legacy::{
    announced_messages, convert_request_message, transcode_legacy_request, ChecksumMode,
    INDEX_SIZE, LEGACY_MESSAGE_HEADER_SIZE,
};
use iggy_core::send_messages2::messages::{IggyMessage2, IggyMessage2Header, IggyMessages2};
use std::hash::Hasher;
use twox_hash::XxHash3_64;

const FRESH_IDS: [u128; 4] = [901, 902, 903, 904];

fn request_header(size: u32) -> RequestHeader {
    RequestHeader {
        cluster: 0,
        view: 0,
        release: 0,
        operation: Operation::SendMessages,
        size,
        client: 1,
        session: 1,
        request: 1,
        namespace: 0,
        user_id: 0,
        code: 0,
    }
}

fn message(id: u128, origin_timestamp: u64, payload: &[u8], headers: Option<&[u8]>) -> IggyMessage2 {
    IggyMessage2 {
        header: IggyMessage2Header {
            id,
            origin_timestamp,
            ..Default::default()
        },
        payload: Bytes::copy_from_slice(payload),
        user_headers: headers.map(Bytes::copy_from_slice),
    }
}

fn sample_messages() -> IggyMessages2 {
    let mut messages = IggyMessages2::with_capacity(2);
    messages.push(message(7, 1_000, b"first-payload", None));
    messages.push(message(8, 1_050, b"second-payload", Some(b"user-header-bytes")));
    messages
}

fn batch_of(namespace: IggyNamespace, messages: &IggyMessages2) -> SendMessages2Owned {
    SendMessages2Owned::from_messages(namespace, messages, &FRESH_IDS).expect("build send batch")
}

/// A frame with an empty header in front of the batch, and the header's fields.
fn prepare_from_owned(owned: &SendMessages2Owned) -> (Vec<u8>, Option<PrepareHeader>) {
    let total = HEADER_SIZE + owned.header.total_size();
    let mut bytes = vec![0u8; total];
    owned
        .header
        .encode_into(&mut bytes[HEADER_SIZE..HEADER_SIZE + COMMAND_HEADER_SIZE]);
    bytes[PREPARE_SPLIT_POINT..PREPARE_SPLIT_POINT + owned.blob.len()]
        .copy_from_slice(&owned.blob);
    (
        bytes,
        Some(PrepareHeader {
            size: u32::try_from(total).expect("prepare size fits u32"),
        }),
    )
}

fn valid_prepare_bytes() -> (Vec<u8>, Option<PrepareHeader>) {
    let mut owned = batch_of(IggyNamespace::new(1, 1, 7), &sample_messages());
    owned.header.base_offset = 10;
    owned.header.base_timestamp = 20;
    owned.header.batch_checksum = owned.header.checksum_for_blob(&owned.blob);
    prepare_from_owned(&owned)
}

fn prepare_with_messages(messages: &IggyMessages2) -> (Vec<u8>, Option<PrepareHeader>) {
    prepare_from_owned(&batch_of(IggyNamespace::new(1, 1, 7), messages))
}

#[test]
fn decode_prepare_slice_trusted_matches_validating_for_valid_batch() {
    let (bytes, prepare) = valid_prepare_bytes();

    let validated = decode_prepare_slice(&bytes, prepare).expect("valid batch decodes");
    let trusted =
        decode_prepare_slice_trusted(&bytes, prepare).expect("valid batch decodes trusted");

    assert_eq!(validated.header.base_offset, trusted.header.base_offset);
    assert_eq!(
        validated.header.base_timestamp,
        trusted.header.base_timestamp
    );
    assert_eq!(
        validated.header.origin_timestamp,
        trusted.header.origin_timestamp
    );
    assert_eq!(validated.header.batch_length, trusted.header.batch_length);
    assert_eq!(validated.message_count(), trusted.message_count());
    assert_eq!(validated.header.total_size(), trusted.header.total_size());
    assert_eq!(validated.blob(), trusted.blob());
}

#[test]
fn decode_prepare_slice_trusted_skips_batch_checksum() {
    let (mut bytes, prepare) = valid_prepare_bytes();
    bytes[HEADER_SIZE + BATCH_CHECKSUM_OFFSET] ^= 0xFF;

    assert!(
        matches!(
            decode_prepare_slice(&bytes, prepare),
            Err(IggyError::InvalidBatchChecksum(..))
        ),
        "validating decode must reject a mutated batch checksum",
    );
    assert!(
        decode_prepare_slice_trusted(&bytes, prepare).is_ok(),
        "trusted decode skips the batch-checksum recomputation",
    );
}

#[test]
fn decode_prepare_slice_size_below_header_size_does_not_panic() {
    for adversarial_size in [0u32, 255] {
        let bytes = vec![0u8; HEADER_SIZE];
        let result = decode_prepare_slice(
            &bytes,
            Some(PrepareHeader {
                size: adversarial_size,
            }),
        );
        assert!(
            matches!(result, Err(IggyError::InvalidCommand)),
            "size={adversarial_size} must be rejected, got {result:?}",
        );
    }
}

#[test]
fn verify_received_send_messages_accepts_clean_batch() {
    let (bytes, prepare) = prepare_with_messages(&sample_messages());
    verify_received_send_messages(&bytes, prepare).expect("a clean batch passes the receive gate");
}

#[test]
fn verify_received_send_messages_rejects_flipped_payload_byte() {
    let (mut bytes, prepare) = prepare_with_messages(&sample_messages());
    bytes[PREPARE_SPLIT_POINT + MESSAGE_HEADER_SIZE] ^= 0xFF;
    assert!(
        matches!(
            verify_received_send_messages(&bytes, prepare),
            Err(IggyError::InvalidMessageChecksum(..))
        ),
        "a flipped payload byte must fail the per-message checksum",
    );
}

#[test]
fn verify_received_send_messages_rejects_flipped_stored_checksum() {
    let (mut bytes, prepare) = prepare_with_messages(&sample_messages());
    bytes[PREPARE_SPLIT_POINT] ^= 0xFF;
    assert!(
        matches!(
            verify_received_send_messages(&bytes, prepare),
            Err(IggyError::InvalidMessageChecksum(..))
        ),
        "a flipped stored checksum must fail the per-message check",
    );
}

#[test]
fn checksum_oneshot_matches_streaming_reference() {
    fn streaming_reference(header_tail: &[u8], payload: &[u8], user_headers: &[u8]) -> u64 {
        let mut hasher = XxHash3_64::new();
        hasher.write(header_tail);
        hasher.write(payload);
        hasher.write(user_headers);
        hasher.finish()
    }

    let header_tail: Vec<u8> = (0u8..40).collect();
    let kilobyte: Vec<u8> = (0..1024u32).map(|index| (index % 251) as u8).collect();
    let cases: &[(&[u8], &[u8])] = &[
        (&[], &[]),
        (b"payload-bytes", &[]),
        (b"payload-bytes", b"user-header-bytes"),
        (&kilobyte, &[]),
        (&kilobyte, &kilobyte[..7]),
        (&kilobyte[..1023], &kilobyte[..7]),
    ];
    for (payload, user_headers) in cases {
        let mut concatenated =
            Vec::with_capacity(header_tail.len() + payload.len() + user_headers.len());
        concatenated.extend_from_slice(&header_tail);
        concatenated.extend_from_slice(payload);
        concatenated.extend_from_slice(user_headers);
        assert_eq!(
            XxHash3_64::oneshot(&concatenated),
            streaming_reference(&header_tail, payload, user_headers),
            "oneshot must match the streaming reference for payload {} B, user headers {} B",
            payload.len(),
            user_headers.len(),
        );
    }
}

#[test]
fn batch_checksum_v2_pins_header_fields_then_message_checksum_fields() {
    let messages = sample_messages();
    let mut owned = batch_of(IggyNamespace::new(1, 1, 7), &messages);
    owned.header.base_offset = 100;
    owned.header.base_timestamp = 200;
    owned.header.batch_checksum = owned.header.checksum_for_blob(&owned.blob);

    let mut hasher = XxHash3_64::new();
    hasher.write(&owned.header.partition_id.to_le_bytes());
    hasher.write(&owned.header.base_offset.to_le_bytes());
    hasher.write(&owned.header.base_timestamp.to_le_bytes());
    hasher.write(&owned.header.origin_timestamp.to_le_bytes());
    hasher.write(&owned.header.batch_length.to_le_bytes());
    hasher.write(&owned.header.message_count.to_le_bytes());
    let mut frame_start = 0usize;
    for message in messages.iter() {
        hasher.write(&owned.blob[frame_start..frame_start + 8]);
        let user_headers = message.user_headers.as_deref().unwrap_or_default();
        frame_start += MESSAGE_HEADER_SIZE + message.payload.len() + user_headers.len();
    }
    let reference = hasher.finish();

    assert_eq!(
        frame_start,
        owned.blob.len(),
        "reference walk must consume the whole blob",
    );
    assert_eq!(
        owned.header.batch_checksum, reference,
        "v2 batch checksum must equal hash(6 header fields || per-message checksum fields)",
    );
}

#[test]
fn decode_batch_slice_rejects_body_corruption_with_intact_checksum_field() {
    let owned = batch_of(IggyNamespace::new(1, 1, 7), &sample_messages());
    let mut body = vec![0u8; COMMAND_HEADER_SIZE + owned.blob.len()];
    owned.header.encode_into(&mut body[..COMMAND_HEADER_SIZE]);
    body[COMMAND_HEADER_SIZE..].copy_from_slice(&owned.blob);

    decode_batch_slice(&body).expect("the clean batch decodes");

    body[COMMAND_HEADER_SIZE + MESSAGE_HEADER_SIZE] ^= 0xFF;
    assert!(
        matches!(
            decode_batch_slice(&body),
            Err(IggyError::InvalidMessageChecksum(..))
        ),
        "body corruption with an intact checksum field must fail the per-message verify",
    );
}

#[test]
fn decode_prepare_slice_rejects_body_corruption_with_intact_checksum_field() {
    let (mut bytes, prepare) = prepare_with_messages(&sample_messages());
    decode_prepare_slice(&bytes, prepare).expect("the clean prepare decodes");

    bytes[PREPARE_SPLIT_POINT + MESSAGE_HEADER_SIZE] ^= 0xFF;
    assert!(
        matches!(
            decode_prepare_slice(&bytes, prepare),
            Err(IggyError::InvalidMessageChecksum(..))
        ),
        "body corruption with an intact checksum field must fail the per-message verify",
    );
    assert!(
        decode_prepare_slice_trusted(&bytes, prepare).is_ok(),
        "the intact checksum field leaves the batch value matching, so trusted still passes",
    );
}

fn legacy_send_messages_body(messages: &IggyMessages2) -> Vec<u8> {
    let count = messages.count();
    let mut body = Vec::new();
    body.extend_from_slice(&4u32.to_le_bytes());
    body.extend_from_slice(&count.to_le_bytes());
    body.extend_from_slice(&vec![0u8; count as usize * INDEX_SIZE]);
    for message in messages.iter() {
        let user_headers = message.user_headers.as_deref().unwrap_or_default();
        let mut header = [0u8; LEGACY_MESSAGE_HEADER_SIZE];
        header[8..24].copy_from_slice(&message.header.id.to_le_bytes());
        header[40..48].copy_from_slice(&message.header.origin_timestamp.to_le_bytes());
        header[48..52].copy_from_slice(&(user_headers.len() as u32).to_le_bytes());
        header[52..56].copy_from_slice(&(message.payload.len() as u32).to_le_bytes());
        body.extend_from_slice(&header);
        body.extend_from_slice(&message.payload);
        body.extend_from_slice(user_headers);
    }
    body
}

fn request_with(body: &[u8]) -> Message<RequestHeader> {
    let total = u32::try_from(HEADER_SIZE + body.len()).expect("size fits u32");
    Message {
        header: request_header(total),
        body: body.to_vec(),
    }
}

fn legacy_request_message(body: &[u8]) -> Message<RequestHeader> {
    request_with(body)
}

fn body_of(message: &Message<RequestHeader>) -> &[u8] {
    message.request_body()
}

fn wire_batch(owned: &SendMessages2Owned) -> Vec<u8> {
    let mut body = vec![0u8; COMMAND_HEADER_SIZE + owned.blob.len()];
    owned.header.encode_into(&mut body[..COMMAND_HEADER_SIZE]);
    body[COMMAND_HEADER_SIZE..].copy_from_slice(&owned.blob);
    body
}

#[test]
fn convert_request_message_transcodes_legacy_to_canonical_bytes() {
    let namespace = IggyNamespace::new(1, 1, 3);
    let messages = sample_messages();

    let expected_body = wire_batch(&batch_of(namespace, &messages));

    let legacy = legacy_request_message(&legacy_send_messages_body(&messages));
    let converted = convert_request_message(namespace, legacy, ChecksumMode::Compute, &FRESH_IDS)
        .expect("legacy body transcodes");
    let actual_body = body_of(&converted);

    assert_eq!(
        actual_body, expected_body,
        "legacy transcode must be byte-identical to the canonical native batch",
    );

    let decoded = decode_batch_slice(actual_body).expect("transcoded batch checksum is valid");
    assert_eq!(decoded.message_count(), messages.count());
    let mut payloads: Vec<&[u8]> = Vec::new();
    let mut walk = decoded.iter();
    while let Some(view) = walk.next() {
        payloads.push(view.payload);
    }
    assert_eq!(
        payloads,
        vec![&b"first-payload"[..], &b"second-payload"[..]]
    );
}

#[test]
fn convert_request_message_skip_leaves_batch_checksum_zero_until_stamp() {
    let namespace = IggyNamespace::new(1, 1, 3);
    let messages = sample_messages();
    let body = legacy_send_messages_body(&messages);

    let computed = convert_request_message(
        namespace,
        legacy_request_message(&body),
        ChecksumMode::Compute,
        &FRESH_IDS,
    )
    .expect("compute transcode");
    let skipped = convert_request_message(
        namespace,
        legacy_request_message(&body),
        ChecksumMode::Skip,
        &FRESH_IDS,
    )
    .expect("skip transcode");

    let computed_body = body_of(&computed);
    let skipped_body = body_of(&skipped);

    let skipped_header = SendMessages2Header::decode(&skipped_body[..COMMAND_HEADER_SIZE])
        .expect("decode skipped header");
    assert_eq!(
        skipped_header.batch_checksum, 0,
        "skip leaves the batch checksum zero until stamp",
    );

    let mut patched = skipped_body.to_vec();
    patched[BATCH_CHECKSUM_OFFSET..BATCH_CHECKSUM_OFFSET + 8]
        .copy_from_slice(&computed_body[BATCH_CHECKSUM_OFFSET..BATCH_CHECKSUM_OFFSET + 8]);
    assert_eq!(
        patched.as_slice(),
        computed_body,
        "skip and compute differ only in the batch_checksum field",
    );
}

/// A stand-in cipher: it changes every byte and makes the text longer.
fn encipher(plain: &[u8]) -> Vec<u8> {
    let mut cipher: Vec<u8> = plain.iter().map(|byte| byte ^ 0x5A).collect();
    cipher.extend_from_slice(&[7u8; 32]);
    cipher
}

fn encipher_parts(parts: &MessageParts) -> MessageParts {
    MessageParts {
        payload: encipher(&parts.payload),
        user_headers: parts.user_headers.as_deref().map(encipher),
    }
}

#[test]
fn encrypt_ingest_path_stays_canonical_through_flag_split() {
    let namespace = IggyNamespace::new(1, 1, 3);
    let messages = sample_messages();

    let legacy = legacy_request_message(&legacy_send_messages_body(&messages));
    let canonical = convert_request_message(namespace, legacy, ChecksumMode::Compute, &FRESH_IDS)
        .expect("pre-encrypt transcode");
    decode_batch_slice(body_of(&canonical)).expect("encrypt input decode validates the checksum");

    let parts = parts_to_encrypt(&canonical).expect("the batch decodes");
    let encrypted: Vec<Result<MessageParts, IggyError>> =
        parts.iter().map(|parts| Ok(encipher_parts(parts))).collect();
    let encrypted = encrypt_batch_request(canonical, &encrypted).expect("encrypt batch");
    let encrypted_body: Vec<u8> = body_of(&encrypted).to_vec();
    decode_batch_slice(&encrypted_body)
        .expect("encrypt output drives the 2nd-convert discriminator");

    let repassed = convert_request_message(namespace, encrypted, ChecksumMode::Skip, &FRESH_IDS)
        .expect("second convert passes the canonical batch");
    assert_eq!(
        body_of(&repassed),
        encrypted_body.as_slice(),
        "an already-canonical encrypted batch passes the partition convert untouched",
    );
}

#[test]
fn header_round_trips_through_its_wire_form() {
    let header = SendMessages2Header {
        partition_id: 1,
        base_offset: 0x0102_0304_0506_0708,
        base_timestamp: 3,
        origin_timestamp: 4,
        batch_length: 256,
        batch_checksum: u64::MAX,
        message_count: 0x0A0B_0C0D,
    };
    let bytes = header.into_frozen();
    assert_eq!(bytes.len(), COMMAND_HEADER_SIZE);
    assert_eq!(bytes[8..16], [8, 7, 6, 5, 4, 3, 2, 1]);
    assert_eq!(bytes[48..52], [0x0D, 0x0C, 0x0B, 0x0A]);
    assert!(bytes[52..].iter().all(|byte| *byte == 0));
    assert_eq!(SendMessages2Header::decode(&bytes), Ok(header));
}

#[test]
fn header_decode_refuses_short_input_and_short_batches() {
    let header = SendMessages2Header::new(1, 2, 255, 1);
    let bytes = header.into_frozen();
    assert_eq!(
        SendMessages2Header::decode(&bytes),
        Err(IggyError::InvalidCommand)
    );
    assert_eq!(
        SendMessages2Header::decode(&bytes[..255]),
        Err(IggyError::InvalidCommand)
    );
    assert_eq!(header.blob_len(), Err(IggyError::InvalidCommand));
    assert_eq!(SendMessages2Header::new(1, 2, 300, 1).blob_len(), Ok(44));
    assert_eq!(SendMessages2Header::new(1, 2, 300, 1).total_size(), 300);
    assert_eq!(SendMessages2Header::default().message_count, 0);
}

#[test]
fn encode_into_keeps_what_lies_behind_the_header() {
    let mut bytes = vec![0xEEu8; COMMAND_HEADER_SIZE + 3];
    SendMessages2Header::new(9, 8, 300, 7).encode_into(&mut bytes);
    assert_eq!(bytes[0], 9);
    assert_eq!(bytes[255], 0);
    assert_eq!(bytes[256..], [0xEE, 0xEE, 0xEE]);
}

#[test]
fn built_batch_yields_its_messages_with_their_places() {
    let messages = sample_messages();
    let owned = batch_of(IggyNamespace::new(1, 1, 7), &messages);
    assert_eq!(owned.header.partition_id, 7);
    assert_eq!(owned.header.origin_timestamp, 1_000);
    assert_eq!(owned.header.message_count, 2);
    assert_eq!(owned.header.batch_length, 256 + 61 + 79);

    let body = wire_batch(&owned);
    let batch = decode_batch_slice(&body).expect("built batch decodes");
    let mut walk = batch.iter_with_offsets();
    let first = walk.next().expect("first message");
    assert_eq!((first.start, first.end), (0, 61));
    assert_eq!(first.message.header.id, 7);
    assert_eq!(first.message.header.offset_delta, 0);
    assert_eq!(first.message.header.timestamp_delta, 0);
    assert_eq!(first.message.header.total_size(), 61);
    assert_eq!(first.message.payload, b"first-payload");
    assert!(first.message.user_headers.is_empty());
    let second = walk.next().expect("second message");
    assert_eq!((second.start, second.end), (61, 140));
    assert_eq!(second.message.header.offset_delta, 1);
    assert_eq!(second.message.header.timestamp_delta, 50);
    assert_eq!(second.message.user_headers, b"user-header-bytes");
    assert!(walk.next().is_none());
    assert!(walk.next().is_none());
}

#[test]
fn frame_checksum_is_the_hash_of_the_rest_of_the_frame() {
    let owned = batch_of(IggyNamespace::new(1, 1, 7), &sample_messages());
    let stored = u64::from_le_bytes(owned.blob[0..8].try_into().expect("eight bytes"));
    assert_eq!(stored, XxHash3_64::oneshot(&owned.blob[8..61]));
}

#[test]
fn message_without_id_takes_the_fresh_one_at_its_place() {
    let mut messages = sample_messages();
    messages.push(message(0, 1_100, b"third", None));
    let owned = batch_of(IggyNamespace::new(1, 1, 7), &messages);
    let body = wire_batch(&owned);
    let batch = decode_batch_slice(&body).expect("built batch decodes");
    let mut walk = batch.iter();
    let mut ids = Vec::new();
    while let Some(view) = walk.next() {
        ids.push(view.header.id);
    }
    assert_eq!(ids, vec![7, 8, 903]);
}

#[test]
fn timestamps_too_far_apart_are_refused_with_their_distance() {
    let mut messages = IggyMessages2::empty();
    messages.push(message(1, 5, b"a", None));
    messages.push(message(2, 5 + 0x1_0000_0000, b"b", None));
    let refused =
        SendMessages2Owned::from_messages(IggyNamespace::new(1, 1, 1), &messages, &FRESH_IDS);
    assert!(matches!(
        refused,
        Err(IggyError::InvalidMessageTimestampDelta(0x1_0000_0000))
    ));

    let legacy = legacy_request_message(&legacy_send_messages_body(&messages));
    let refused = convert_request_message(
        IggyNamespace::new(1, 1, 1),
        legacy,
        ChecksumMode::Compute,
        &FRESH_IDS,
    );
    assert_eq!(
        refused,
        Err(IggyError::InvalidMessageTimestampDelta(0x1_0000_0000))
    );
}

#[test]
fn latest_possible_timestamp_counts_as_none() {
    let mut messages = IggyMessages2::empty();
    messages.push(message(1, u64::MAX, b"a", None));
    let refused =
        SendMessages2Owned::from_messages(IggyNamespace::new(1, 1, 1), &messages, &FRESH_IDS);
    assert!(matches!(
        refused,
        Err(IggyError::InvalidMessageTimestampDelta(u64::MAX))
    ));
}

#[test]
fn empty_batch_decodes() {
    let owned = batch_of(IggyNamespace::new(1, 1, 7), &IggyMessages2::empty());
    assert_eq!(owned.header.batch_length, 256);
    assert_eq!(owned.header.origin_timestamp, 0);
    let body = wire_batch(&owned);
    assert_eq!(
        decode_batch_slice(&body).map(|batch| batch.message_count()),
        Ok(0)
    );
}

#[test]
fn encode_request_restates_the_size() {
    let owned = batch_of(IggyNamespace::new(1, 1, 7), &sample_messages());
    let copy = owned.clone();
    let body = wire_batch(&owned);
    let request = copy.encode_request(request_header(3)).expect("fits");
    assert_eq!(request.header.size as usize, HEADER_SIZE + body.len());
    assert_eq!(request.header.session, 1);
    assert_eq!(request.body, body);
}

#[test]
fn encode_request_fills_up_to_the_announced_length() {
    let mut owned = batch_of(IggyNamespace::new(1, 1, 7), &sample_messages());
    owned.header.batch_length += 5;
    let blob_len = owned.blob.len();
    let request = owned.encode_request(request_header(0)).expect("fits");
    assert_eq!(request.body.len(), COMMAND_HEADER_SIZE + blob_len + 5);
    assert_eq!(request.body[COMMAND_HEADER_SIZE + blob_len..], [0; 5]);
}

#[test]
fn encode_request_refuses_what_the_size_field_cannot_hold() {
    let mut owned = batch_of(IggyNamespace::new(1, 1, 7), &sample_messages());
    owned.header.batch_length = u64::from(u32::MAX) - 255;
    assert_eq!(
        owned.encode_request(request_header(0)),
        Err(IggyError::InvalidCommand)
    );
}

#[test]
fn count_that_does_not_match_the_frames_is_refused() {
    let mut owned = batch_of(IggyNamespace::new(1, 1, 7), &sample_messages());
    owned.header.message_count = 3;
    owned.header.batch_checksum = owned.header.checksum_for_blob(&owned.blob);
    assert!(matches!(
        decode_batch_slice(&wire_batch(&owned)),
        Err(IggyError::InvalidCommand)
    ));
}

#[test]
fn bytes_behind_the_last_frame_are_refused() {
    let mut owned = batch_of(IggyNamespace::new(1, 1, 7), &sample_messages());
    owned.header.batch_length += 1;
    owned.header.batch_checksum = owned.header.checksum_for_blob(&owned.blob);
    let mut body = wire_batch(&owned);
    body.push(0);
    assert!(matches!(
        decode_batch_slice(&body),
        Err(IggyError::InvalidCommand)
    ));
    assert!(matches!(
        decode_batch_slice(&body[..body.len() - 1]),
        Err(IggyError::InvalidCommand)
    ));
}

#[test]
fn reserved_bytes_of_a_frame_must_be_zero() {
    let owned = batch_of(IggyNamespace::new(1, 1, 7), &sample_messages());
    let mut body = wire_batch(&owned);
    body[COMMAND_HEADER_SIZE + 40] = 1;
    assert!(matches!(
        decode_batch_slice(&body),
        Err(IggyError::InvalidCommand)
    ));
}

#[test]
fn damaged_message_is_reported_with_both_checksums_and_its_offset() {
    let mut owned = batch_of(IggyNamespace::new(1, 1, 7), &sample_messages());
    owned.header.base_offset = 40;
    let mut body = wire_batch(&owned);
    let second = COMMAND_HEADER_SIZE + 61;
    body[second] ^= 1;
    let stored = u64::from_le_bytes(body[second..second + 8].try_into().expect("eight bytes"));
    let expected = XxHash3_64::oneshot(&body[second + 8..second + 79]);
    assert!(matches!(
        decode_batch_slice(&body),
        Err(IggyError::InvalidMessageChecksum(found, wanted, 41))
            if found == stored && wanted == expected
    ));
}

#[test]
fn batch_checksum_error_names_both_values_and_the_offset() {
    let mut owned = batch_of(IggyNamespace::new(1, 1, 7), &sample_messages());
    let right = owned.header.batch_checksum;
    owned.header.batch_checksum = right ^ 1;
    assert!(matches!(
        decode_batch_slice(&wire_batch(&owned)),
        Err(IggyError::InvalidBatchChecksum(found, wanted, 0))
            if found == right ^ 1 && wanted == right
    ));
}

#[test]
fn prepare_without_a_readable_header_is_refused() {
    let (bytes, prepare) = valid_prepare_bytes();
    assert!(matches!(
        decode_prepare_slice_trusted(&bytes, None),
        Err(IggyError::InvalidCommand)
    ));
    assert!(matches!(
        decode_prepare_slice_trusted(&bytes[..255], prepare),
        Err(IggyError::InvalidCommand)
    ));
    assert!(matches!(
        decode_prepare_slice_trusted(&bytes[..bytes.len() - 1], prepare),
        Err(IggyError::InvalidCommand)
    ));
}

fn prepare_message(owned: &SendMessages2Owned) -> Message<PrepareHeader> {
    let body = wire_batch(owned);
    Message {
        header: PrepareHeader {
            size: u32::try_from(HEADER_SIZE + body.len()).expect("fits"),
        },
        body,
    }
}

fn frame_of(message: &Message<PrepareHeader>) -> Vec<u8> {
    let mut bytes = vec![0u8; HEADER_SIZE];
    bytes.extend_from_slice(&message.body);
    bytes
}

#[test]
fn stamped_prepare_passes_the_validating_decode() {
    let owned = batch_of(IggyNamespace::new(1, 1, 7), &sample_messages());
    let (stamped, command, count) =
        stamp_prepare_for_persistence(prepare_message(&owned), 10, 20).expect("stamps");
    assert_eq!(count, 2);
    assert_eq!(command.base_offset, 10);
    assert_eq!(command.base_timestamp, 20);
    assert_ne!(command.batch_checksum, owned.header.batch_checksum);
    assert_eq!(command.batch_checksum, command.checksum_for_blob(&owned.blob));
    let bytes = frame_of(&stamped);
    let decoded = decode_prepare_slice(&bytes, Some(stamped.header)).expect("stamped decodes");
    assert_eq!(decoded.header, command);
    assert_eq!(decoded.blob(), &owned.blob[..]);
}

#[test]
fn batch_checksum_binds_stored_checksums_only() {
    let namespace = IggyNamespace::new(1, 1, 7);
    let mut short_first = IggyMessages2::empty();
    short_first.push(message(7, 1_000, b"a", None));
    short_first.push(message(8, 1_000, b"longer", None));
    let one = batch_of(namespace, &short_first);
    let mut long_first = IggyMessages2::empty();
    long_first.push(message(9, 1_000, b"longest", None));
    long_first.push(message(10, 1_500, b"b", None));
    let two = batch_of(namespace, &long_first);
    // The second frames lie at different places; each takes over the stored
    // checksum of its counterpart.
    let mut blob = two.blob.to_vec();
    let (at, other_at) = (MESSAGE_HEADER_SIZE + 1, MESSAGE_HEADER_SIZE + 7);
    blob[..8].copy_from_slice(&one.blob[..8]);
    assert_ne!(
        one.header.checksum_for_blob(&one.blob),
        one.header.checksum_for_blob(&blob)
    );
    blob[other_at..other_at + 8].copy_from_slice(&one.blob[at..at + 8]);
    assert_eq!(
        one.header.checksum_for_blob(&one.blob),
        one.header.checksum_for_blob(&blob)
    );
}

#[test]
fn last_stamp_wins() {
    let owned = batch_of(IggyNamespace::new(1, 1, 7), &sample_messages());
    let (first, _, _) =
        stamp_prepare_for_persistence(prepare_message(&owned), 10, 20).expect("stamps");
    let (again, _, _) = stamp_prepare_for_persistence(first, 30, 40).expect("stamps again");
    let (once, _, _) =
        stamp_prepare_for_persistence(prepare_message(&owned), 30, 40).expect("stamps once");
    assert_eq!(again, once);
}

#[test]
fn stamping_refuses_a_prepare_without_a_batch() {
    let short = Message {
        header: PrepareHeader { size: 511 },
        body: vec![0u8; 256],
    };
    assert_eq!(
        stamp_prepare_for_persistence(short, 1, 2),
        Err(IggyError::InvalidCommand)
    );
    let no_batch = Message {
        header: PrepareHeader { size: 512 },
        body: vec![0u8; 256],
    };
    assert_eq!(
        stamp_prepare_for_persistence(no_batch, 1, 2),
        Err(IggyError::InvalidCommand)
    );
}

#[test]
fn converting_a_valid_batch_returns_it() {
    let namespace = IggyNamespace::new(1, 1, 7);
    let owned = batch_of(namespace, &sample_messages());
    let request = owned.encode_request(request_header(0)).expect("fits");
    let kept = request.clone();
    let converted =
        convert_request_message(IggyNamespace::new(9, 9, 9), request, ChecksumMode::Skip, &[]);
    assert_eq!(converted, Ok(kept));
}

#[test]
fn older_layout_is_refused_where_it_does_not_add_up() {
    let namespace = IggyNamespace::new(1, 1, 3);
    let body = legacy_send_messages_body(&sample_messages());
    assert_eq!(announced_messages(&body), 2);
    let refuse = |body: &[u8]| {
        convert_request_message(
            namespace,
            legacy_request_message(body),
            ChecksumMode::Compute,
            &FRESH_IDS,
        )
    };
    // Cut off, too long, and with a count that is too small.
    assert_eq!(
        refuse(&body[..body.len() - 1]),
        Err(IggyError::InvalidCommand)
    );
    let mut longer = body.clone();
    longer.push(0);
    assert_eq!(refuse(&longer), Err(IggyError::InvalidCommand));
    let mut fewer = body.clone();
    fewer[4] = 1;
    assert_eq!(refuse(&fewer), Err(IggyError::InvalidCommand));
    assert_eq!(refuse(&[1, 0]), Err(IggyError::InvalidCommand));
    assert_eq!(announced_messages(&[1, 0]), 0);
    // Metadata of no length: the count is read from the length field.
    assert!(refuse(&[0, 0, 0, 0]).is_ok());
}

#[test]
fn older_layout_gives_fresh_ids_to_messages_without_one() {
    let mut messages = IggyMessages2::empty();
    messages.push(message(0, 3, b"a", None));
    messages.push(message(5, 4, b"b", None));
    let legacy = legacy_request_message(&legacy_send_messages_body(&messages));
    let converted = convert_request_message(
        IggyNamespace::new(1, 1, 3),
        legacy,
        ChecksumMode::Compute,
        &FRESH_IDS,
    )
    .expect("converts");
    let native = wire_batch(&batch_of(IggyNamespace::new(1, 1, 3), &messages));
    assert_eq!(body_of(&converted), native.as_slice());
    assert_eq!(
        converted.header.size as usize,
        HEADER_SIZE + body_of(&converted).len()
    );
}

#[test]
fn converting_equals_building_then_encoding() {
    let namespace = IggyNamespace::new(1, 1, 3);
    let messages = sample_messages();
    let body = legacy_send_messages_body(&messages);
    let header = request_header(0);
    let native = SendMessages2Owned::from_messages(namespace, &messages, &[1, 2])
        .expect("builds")
        .encode_request(header)
        .expect("encodes");
    // Both messages have an id, so it does not matter which are at hand.
    let converted =
        transcode_legacy_request(namespace, &body, header, ChecksumMode::Compute, &[3, 4])
            .expect("converts");
    assert_eq!(converted, native);
    assert_eq!(
        transcode_legacy_request(namespace, &[0], header, ChecksumMode::Compute, &[]),
        Err(IggyError::InvalidCommand)
    );
}

#[test]
fn encrypted_batch_keeps_ids_and_deltas() {
    let owned = batch_of(IggyNamespace::new(1, 1, 7), &sample_messages());
    let request = owned.encode_request(request_header(0)).expect("fits");
    let parts = parts_to_encrypt(&request).expect("decodes");
    assert_eq!(parts[0].payload, b"first-payload");
    assert!(parts[0].user_headers.is_none());
    assert_eq!(
        parts[1].user_headers.as_deref(),
        Some(&b"user-header-bytes"[..])
    );
    let encrypted: Vec<Result<MessageParts, IggyError>> =
        parts.iter().map(|parts| Ok(encipher_parts(parts))).collect();
    let encoded = encrypt_batch_request(request, &encrypted).expect("encodes");
    let batch = decode_batch_slice(body_of(&encoded)).expect("encrypted batch decodes");
    assert_eq!(batch.header.origin_timestamp, 1_000);
    let mut walk = batch.iter();
    let first = walk.next().expect("first");
    assert_eq!(first.header.id, 7);
    assert_eq!(first.payload, encipher(b"first-payload").as_slice());
    assert!(first.user_headers.is_empty());
    let second = walk.next().expect("second");
    assert_eq!(second.header.timestamp_delta, 50);
    assert_eq!(
        second.user_headers,
        encipher(b"user-header-bytes").as_slice()
    );
}

#[test]
fn first_failed_encryption_decides_the_error() {
    let owned = batch_of(IggyNamespace::new(1, 1, 7), &sample_messages());
    let request = owned.encode_request(request_header(0)).expect("fits");
    let encrypted = vec![
        Err(IggyError::Other(17)),
        Err(IggyError::Other(18)),
    ];
    assert_eq!(
        encrypt_batch_request(request, &encrypted),
        Err(IggyError::Other(17))
    );
}

#[test]
fn undecodable_batch_is_not_encrypted() {
    let request = request_with(&[0u8; 300]);
    assert!(matches!(
        parts_to_encrypt(&request),
        Err(IggyError::InvalidCommand)
    ));
    assert_eq!(
        encrypt_batch_request(request, &[]),
        Err(IggyError::InvalidCommand)
    );
}

#[test]
fn damaged_batch_is_not_encrypted() {
    let owned = batch_of(IggyNamespace::new(1, 1, 7), &sample_messages());
    let mut damaged = wire_batch(&owned);
    let last = damaged.len() - 1;
    damaged[last] ^= 0xff;
    assert!(matches!(
        decode_batch_slice(&damaged),
        Err(IggyError::InvalidMessageChecksum(..) | IggyError::InvalidBatchChecksum(..))
    ));
    let request = request_with(&damaged);
    assert!(matches!(
        parts_to_encrypt(&request),
        Err(IggyError::InvalidCommand)
    ));
    assert_eq!(
        encrypt_complete_batch_request(request.clone(), &[]),
        Some(Err(IggyError::InvalidCommand))
    );
    assert_eq!(
        encrypt_batch_request(request, &[]),
        Err(IggyError::InvalidCommand)
    );
}

#[test]
fn batch_is_encrypted_only_with_an_outcome_for_every_message() {
    let owned = batch_of(IggyNamespace::new(1, 1, 7), &sample_messages());
    let request = owned.encode_request(request_header(0)).expect("fits");
    let encrypted: Vec<Result<MessageParts, IggyError>> = parts_to_encrypt(&request)
        .expect("decodes")
        .iter()
        .map(|parts| Ok(encipher_parts(parts)))
        .collect();
    assert_eq!(
        encrypt_complete_batch_request(request.clone(), &encrypted[..1]),
        None
    );
    let complete = encrypt_complete_batch_request(request.clone(), &encrypted);
    assert_eq!(complete, Some(encrypt_batch_request(request, &encrypted)));
    assert!(matches!(complete, Some(Ok(_))));
}

#[test]
fn messages_keep_their_order_and_offsets() {
    let mut messages = IggyMessages2::default();
    assert!(messages.is_empty());
    assert_eq!(messages.first_offset(), None);
    assert_eq!(messages.last_offset(), None);
    for offset in 3..6u64 {
        let mut next = message(1, 0, b"x", None);
        next.header.offset = offset;
        messages.push(next);
    }
    assert_eq!(messages.count(), 3);
    assert_eq!(messages.first_offset(), Some(3));
    assert_eq!(messages.last_offset(), Some(5));
    let all = messages.clone().limit(9);
    assert_eq!(all, messages);
    let two = messages.limit(2);
    assert_eq!(two.last_offset(), Some(4));
    let offsets: Vec<u64> = (&two).into_iter().map(|found| found.header.offset).collect();
    assert_eq!(offsets, vec![3, 4]);
    let owned: Vec<u64> = two.into_iter().map(|found| found.header.offset).collect();
    assert_eq!(owned, vec![3, 4]);
}
