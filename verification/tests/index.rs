//! The sparse index file.
use iggy_core::index::{
    decode_entries, decode_entry, entry_count, first_entry_position, last_entry_position,
    whole_entries_len, IggyIndex, IggyIndexCache, IGGY_INDEX_SIZE,
};

fn entry(offset: u64, timestamp: u64, position: u64) -> Vec<u8> {
    let mut bytes = Vec::new();
    bytes.extend_from_slice(&offset.to_le_bytes());
    bytes.extend_from_slice(&timestamp.to_le_bytes());
    bytes.extend_from_slice(&position.to_le_bytes());
    bytes
}

#[test]
fn whole_entries_are_counted() {
    assert_eq!(entry_count(0), 0);
    assert_eq!(entry_count(23), 0);
    assert_eq!(entry_count(24), 1);
    assert_eq!(entry_count(71), 2);
}

#[test]
fn first_and_last_entry_lie_where_they_are_read() {
    assert_eq!(first_entry_position(23), None);
    assert_eq!(last_entry_position(23), None);
    assert_eq!(first_entry_position(71), Some(0));
    assert_eq!(last_entry_position(71), Some(24));
}

#[test]
fn torn_last_entry_is_not_read() {
    assert_eq!(whole_entries_len(23), Ok(None));
    assert_eq!(whole_entries_len(71), Ok(Some(48)));
}

#[test]
fn index_entry_is_three_little_endian_numbers() {
    let bytes = entry(0x0102_0304_0506_0708, 9, 10);
    assert_eq!(bytes.len(), IGGY_INDEX_SIZE);
    assert_eq!(bytes[0], 8);
    assert_eq!(
        decode_entry(&bytes),
        IggyIndex::new(0x0102_0304_0506_0708, 9, 10)
    );
}

#[test]
fn all_whole_entries_are_decoded_in_order() {
    let mut bytes = entry(1, 2, 3);
    bytes.extend_from_slice(&entry(4, 5, 6));
    let whole = decode_entries(&bytes);
    assert_eq!(
        whole.entries(),
        &[IggyIndex::new(1, 2, 3), IggyIndex::new(4, 5, 6)]
    );
    bytes.extend_from_slice(&[1; 23]);
    assert_eq!(decode_entries(&bytes), whole);
    assert_eq!(decode_entries(&[]), IggyIndexCache::empty());
}

#[test]
fn cache_keeps_what_is_inserted() {
    let mut cache = IggyIndexCache::with_capacity(1);
    cache.insert(7, 8, 9);
    assert_eq!(cache.entries(), &[IggyIndex::new(7, 8, 9)]);
}
