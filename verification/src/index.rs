//! The sparse index file of a segment: 24-byte entries, one behind the other.
//!
//! An entry that a crash left incomplete can only be the last one; what is
//! left of it is ignored.
use crate::buffers::take_u64_le;
use crate::codec::{le_at, le_bytes, lemma_le_limits, lemma_le_read_of_write};
use crate::error::IggyError;
use vstd::prelude::*;

verus! {

/// Bytes of an index entry.
pub const IGGY_INDEX_SIZE: usize = 24;

/// Where the messages from an offset and a timestamp on lie in the segment.
#[derive(Debug, Clone, Copy, PartialEq, Eq, Structural)]
pub struct IggyIndex {
    pub offset: u64,
    pub timestamp: u64,
    pub position: u64,
}

impl IggyIndex {
    /// An entry with the given fields.
    pub fn new(offset: u64, timestamp: u64, position: u64) -> (index: Self)
        ensures
            index == (IggyIndex { offset, timestamp, position }),
    {
        IggyIndex { offset, timestamp, position }
    }
}

/// Entry `i` of an index file with the content `bytes`.
pub open spec fn entry_at(bytes: Seq<u8>, i: int) -> IggyIndex {
    IggyIndex {
        offset: le_at(bytes, IGGY_INDEX_SIZE * i, 8) as u64,
        timestamp: le_at(bytes, IGGY_INDEX_SIZE * i + 8, 8) as u64,
        position: le_at(bytes, IGGY_INDEX_SIZE * i + 16, 8) as u64,
    }
}

/// All whole entries of an index file with the content `bytes`.
pub open spec fn whole_entries(bytes: Seq<u8>) -> Seq<IggyIndex> {
    Seq::new((bytes.len() / IGGY_INDEX_SIZE as nat) as nat, |i: int| entry_at(bytes, i))
}

/// The entries of an index file, in file order.
#[derive(Debug, Clone, PartialEq, Eq)]
pub struct IggyIndexCache {
    entries: Vec<IggyIndex>,
}

impl View for IggyIndexCache {
    type V = Seq<IggyIndex>;

    closed spec fn view(&self) -> Seq<IggyIndex> {
        self.entries@
    }
}

impl IggyIndexCache {
    /// No entries.
    pub fn empty() -> (cache: Self)
        ensures
            cache@ == Seq::<IggyIndex>::empty(),
    {
        IggyIndexCache { entries: Vec::new() }
    }

    /// No entries, and room for `capacity` of them.
    pub fn with_capacity(capacity: usize) -> (cache: Self)
        ensures
            cache@ == Seq::<IggyIndex>::empty(),
    {
        IggyIndexCache { entries: Vec::with_capacity(capacity) }
    }

    /// Adds an entry at the end.
    pub fn insert(&mut self, offset: u64, timestamp: u64, position: u64)
        ensures
            final(self)@ == old(self)@.push(IggyIndex { offset, timestamp, position }),
    {
        self.entries.push(IggyIndex::new(offset, timestamp, position));
    }

    /// The entries as a slice.
    pub fn entries(&self) -> (entries: &[IggyIndex])
        ensures
            entries@ == self@,
    {
        self.entries.as_slice()
    }
}

/// How many whole entries a file of `size` bytes holds.
pub fn entry_count(size: u64) -> (count: u64)
    ensures
        count == size / 24,
        count * IGGY_INDEX_SIZE <= size < (count + 1) * IGGY_INDEX_SIZE,
{
    size / 24
}

/// Where the first whole entry of a file of `size` bytes lies.
pub fn first_entry_position(size: u64) -> (position: Option<u64>)
    ensures
        position == (if size < IGGY_INDEX_SIZE {
            None::<u64>
        } else {
            Some(0u64)
        }),
{
    if entry_count(size) == 0 {
        None
    } else {
        Some(0)
    }
}

/// Where the last whole entry of a file of `size` bytes lies.
pub fn last_entry_position(size: u64) -> (position: Option<u64>)
    ensures
        position == (if size < IGGY_INDEX_SIZE {
            None::<u64>
        } else {
            Some(((size / 24 - 1) * 24) as u64)
        }),
{
    let count: u64 = entry_count(size);
    if count == 0 {
        None
    } else {
        Some((count - 1) * 24)
    }
}

/// How many bytes to read for all whole entries of a file of `size` bytes:
/// `None` where there is none to read, an error where their count passes what
/// the machine addresses.
pub fn whole_entries_len(size: u64) -> (len: Result<Option<usize>, IggyError>)
    requires
        size / 24 <= usize::MAX ==> size / 24 * 24 <= usize::MAX,
    ensures
        len == (if size / 24 > usize::MAX {
            Err::<Option<usize>, IggyError>(IggyError::CannotReadFileMetadata)
        } else if size / 24 == 0 {
            Ok(None)
        } else {
            Ok(Some((size / 24 * 24) as usize))
        }),
{
    let count: u64 = entry_count(size);
    if count > usize::MAX as u64 {
        return Err(IggyError::CannotReadFileMetadata);
    }
    if count == 0 {
        return Ok(None);
    }
    Ok(Some(count as usize * IGGY_INDEX_SIZE))
}

/// The entry that `buffer` begins with.
pub fn decode_entry(buffer: &[u8]) -> (index: IggyIndex)
    requires
        buffer@.len() >= IGGY_INDEX_SIZE,
    ensures
        index == entry_at(buffer@, 0),
{
    let (offset, view): (u64, &[u8]) = take_u64_le(buffer);
    let (timestamp, view): (u64, &[u8]) = take_u64_le(view);
    let (position, view): (u64, &[u8]) = take_u64_le(view);
    proof {
        let bytes = buffer@;
        let behind = bytes.subrange(8, bytes.len() as int);
        assert(behind.subrange(0, 8) =~= bytes.subrange(8, 16));
        assert(behind.subrange(8, behind.len() as int).subrange(0, 8) =~= bytes.subrange(16, 24));
    }
    IggyIndex::new(offset, timestamp, position)
}

/// All whole entries of `buffer`, in order.
pub fn decode_entries(buffer: &[u8]) -> (cache: IggyIndexCache)
    ensures
        cache@ == whole_entries(buffer@),
{
    let count: usize = buffer.len() / IGGY_INDEX_SIZE;
    let mut cache = IggyIndexCache::with_capacity(count);
    let mut view: &[u8] = buffer;
    let mut taken: usize = 0;
    assert(buffer@ =~= buffer@.subrange(0, buffer@.len() as int));
    while taken < count
        invariant
            taken <= count,
            count == buffer@.len() / IGGY_INDEX_SIZE as nat,
            view@ == buffer@.subrange(IGGY_INDEX_SIZE * taken, buffer@.len() as int),
            cache@ == Seq::new(taken as nat, |i: int| entry_at(buffer@, i)),
        decreases count - taken,
    {
        let ghost at: int = IGGY_INDEX_SIZE * taken;
        let index = decode_entry(view);
        proof {
            let bytes = buffer@;
            assert(view@.subrange(0, 8) =~= bytes.subrange(at, at + 8));
            assert(view@.subrange(8, 16) =~= bytes.subrange(at + 8, at + 16));
            assert(view@.subrange(16, 24) =~= bytes.subrange(at + 16, at + 24));
        }
        view = &view[IGGY_INDEX_SIZE..view.len()];
        cache.insert(index.offset, index.timestamp, index.position);
        taken = taken + 1;
        assert(view@ =~= buffer@.subrange(IGGY_INDEX_SIZE * taken, buffer@.len() as int));
        assert(cache@ =~= Seq::new(taken as nat, |i: int| entry_at(buffer@, i)));
    }
    assert(cache@ =~= whole_entries(buffer@));
    cache
}

/// What is left of an incomplete last entry changes no entry.
pub proof fn law_torn_entry_is_ignored(bytes: Seq<u8>, torn: Seq<u8>)
    requires
        bytes.len() % IGGY_INDEX_SIZE as nat == 0,
        torn.len() < IGGY_INDEX_SIZE,
    ensures
        whole_entries(bytes + torn) == whole_entries(bytes),
{
    let all = bytes + torn;
    assert(all.len() / 24 == bytes.len() / 24);
    assert forall|i: int| 0 <= i < bytes.len() / 24 implies entry_at(all, i) == entry_at(
        bytes,
        i,
    ) by {
        assert(all.subrange(24 * i, 24 * i + 8) =~= bytes.subrange(24 * i, 24 * i + 8));
        assert(all.subrange(24 * i + 8, 24 * i + 16) =~= bytes.subrange(24 * i + 8, 24 * i + 16));
        assert(all.subrange(24 * i + 16, 24 * i + 24) =~= bytes.subrange(
            24 * i + 16,
            24 * i + 24,
        ));
    }
    assert(whole_entries(all) =~= whole_entries(bytes));
}

/// The entries read at the first and at the last position are the first and
/// the last of all.
pub proof fn law_first_and_last_of_all(bytes: Seq<u8>)
    requires
        bytes.len() >= IGGY_INDEX_SIZE,
    ensures
        ({
            let last = (bytes.len() / 24 - 1) * 24;
            &&& whole_entries(bytes).len() > 0
            &&& whole_entries(bytes).first() == entry_at(bytes, 0)
            &&& last + IGGY_INDEX_SIZE <= bytes.len()
            &&& whole_entries(bytes).last() == entry_at(
                bytes.subrange(last, last + IGGY_INDEX_SIZE),
                0,
            )
        }),
{
    let i = bytes.len() as int / 24 - 1;
    let last = i * 24;
    let own = bytes.subrange(last, last + 24);
    assert(own.subrange(0, 8) =~= bytes.subrange(24 * i, 24 * i + 8));
    assert(own.subrange(8, 16) =~= bytes.subrange(24 * i + 8, 24 * i + 16));
    assert(own.subrange(16, 24) =~= bytes.subrange(24 * i + 16, 24 * i + 24));
}

/// The file that holds `entries`: of each the offset, the timestamp and the
/// position, eight bytes each.
pub open spec fn index_file(entries: Seq<IggyIndex>) -> Seq<u8>
    decreases entries.len(),
{
    if entries.len() == 0 {
        Seq::empty()
    } else {
        index_file(entries.drop_last()) + le_bytes(entries.last().offset as nat, 8) + le_bytes(
            entries.last().timestamp as nat,
            8,
        ) + le_bytes(entries.last().position as nat, 8)
    }
}

/// A file of entries is read as exactly these entries, in order.
pub proof fn law_index_file_is_read_back(entries: Seq<IggyIndex>)
    ensures
        index_file(entries).len() == 24 * entries.len(),
        whole_entries(index_file(entries)) == entries,
    decreases entries.len(),
{
    let bytes = index_file(entries);
    if entries.len() > 0 {
        let shorter = entries.drop_last();
        let last = entries.last();
        let before = index_file(shorter);
        let n = shorter.len() as int;
        law_index_file_is_read_back(shorter);
        lemma_le_limits();
        lemma_le_read_of_write(last.offset as nat, 8);
        lemma_le_read_of_write(last.timestamp as nat, 8);
        lemma_le_read_of_write(last.position as nat, 8);
        assert(bytes.len() / 24 == n + 1);
        assert forall|i: int| 0 <= i < entries.len() implies entry_at(bytes, i)
            == #[trigger] entries[i] by {
            if i < n {
                assert(whole_entries(before)[i] == shorter[i]);
                assert(bytes.subrange(24 * i, 24 * i + 8) =~= before.subrange(24 * i, 24 * i + 8));
                assert(bytes.subrange(24 * i + 8, 24 * i + 16) =~= before.subrange(
                    24 * i + 8,
                    24 * i + 16,
                ));
                assert(bytes.subrange(24 * i + 16, 24 * i + 24) =~= before.subrange(
                    24 * i + 16,
                    24 * i + 24,
                ));
            } else {
                assert(bytes.subrange(24 * i, 24 * i + 8) =~= le_bytes(last.offset as nat, 8));
                assert(bytes.subrange(24 * i + 8, 24 * i + 16) =~= le_bytes(
                    last.timestamp as nat,
                    8,
                ));
                assert(bytes.subrange(24 * i + 16, 24 * i + 24) =~= le_bytes(
                    last.position as nat,
                    8,
                ));
            }
        }
    }
    assert(whole_entries(bytes) =~= entries);
}

} // verus!
