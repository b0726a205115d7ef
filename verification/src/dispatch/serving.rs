//! Reads that a shard serves: of its partitions for its peers, and of clients
//! and snapshots.
use crate::error::IggyError;
use crate::message::HEADER_SIZE;
use vstd::prelude::*;

verus! {

/// What a partition's shard answers to a read.
#[derive(Debug, Clone, Copy, PartialEq, Eq, Structural)]
pub enum PartitionReadReply {
    /// The shard does not hold the partition.
    NotFound,
    /// Messages, which go along beside this, and the partition's current
    /// offset.
    Poll { current_offset: u64 },
    ConsumerOffset { stored: Option<u64>, current_offset: u64 },
    GroupOffsetState { last_polled: Option<u64>, committed: Option<u64> },
    Ack,
    SegmentDeleteOffset { up_to_offset: Option<u64>, lagging: bool },
}

/// What a shard finds for a read of a partition; none where it does not hold
/// the partition.
#[derive(Debug, Clone, Copy)]
pub enum PartitionLookup {
    /// Whether the plan of a poll reads from disk.
    Poll(Option<bool>),
    /// The stored offset of a consumer and the partition's current one.
    ConsumerOffset(Option<(Option<u64>, u64)>),
    /// The last offset that a group was served, and the last that it
    /// committed.
    GroupOffsetState(Option<(Option<u64>, Option<u64>)>),
    /// A group's last served offset was cleared.
    ClearGroupLastPolled(Option<()>),
    /// How far a count of segments reaches, and whether the shard's replica is
    /// behind the committed log.
    SegmentDeleteOffset(Option<(Option<u64>, bool)>),
}

/// How a read of a partition is served.
#[derive(Debug, Clone, Copy, PartialEq, Eq, Structural)]
pub enum ReadServing {
    Reply(PartitionReadReply),
    /// Part of a poll is on disk: read in a task of its own, then reply.
    SpawnIo,
    /// All of a poll is in memory: reply with it at once.
    ReplyResident,
}

/// How a read is served, given what the shard finds for it.
pub open spec fn serving_of(found: PartitionLookup) -> ReadServing {
    match found {
        PartitionLookup::Poll(Some(true)) => ReadServing::SpawnIo,
        PartitionLookup::Poll(Some(false)) => ReadServing::ReplyResident,
        PartitionLookup::ConsumerOffset(Some((stored, current_offset))) => ReadServing::Reply(
            PartitionReadReply::ConsumerOffset { stored, current_offset },
        ),
        PartitionLookup::GroupOffsetState(Some((last_polled, committed))) => ReadServing::Reply(
            PartitionReadReply::GroupOffsetState { last_polled, committed },
        ),
        PartitionLookup::ClearGroupLastPolled(Some(_)) => ReadServing::Reply(
            PartitionReadReply::Ack,
        ),
        PartitionLookup::SegmentDeleteOffset(Some((up_to_offset, lagging))) => ReadServing::Reply(
            PartitionReadReply::SegmentDeleteOffset { up_to_offset, lagging },
        ),
        _ => ReadServing::Reply(PartitionReadReply::NotFound),
    }
}

/// Decides how a read of a partition is served.
pub fn serve_partition_read(found: PartitionLookup) -> (serving: ReadServing)
    ensures
        serving == serving_of(found),
{
    match found {
        PartitionLookup::Poll(Some(needs_io)) => if needs_io {
            ReadServing::SpawnIo
        } else {
            ReadServing::ReplyResident
        },
        PartitionLookup::ConsumerOffset(Some((stored, current_offset))) => ReadServing::Reply(
            PartitionReadReply::ConsumerOffset { stored, current_offset },
        ),
        PartitionLookup::GroupOffsetState(Some((last_polled, committed))) => ReadServing::Reply(
            PartitionReadReply::GroupOffsetState { last_polled, committed },
        ),
        PartitionLookup::ClearGroupLastPolled(Some(_)) => ReadServing::Reply(
            PartitionReadReply::Ack,
        ),
        PartitionLookup::SegmentDeleteOffset(Some((up_to_offset, lagging))) => ReadServing::Reply(
            PartitionReadReply::SegmentDeleteOffset { up_to_offset, lagging },
        ),
        _ => ReadServing::Reply(PartitionReadReply::NotFound),
    }
}

/// A member's assignment in its group: the generation and the partitions.
pub type Assignment = (u64, Vec<u32>);

/// What a member is told of its assignment; none where it has none, which is
/// answered with an empty body. `looked_up` is none where the request could
/// not be decoded.
pub fn synced_assignment(looked_up: Option<Option<Assignment>>) -> (assignment: Option<Assignment>)
    ensures
        assignment == (match looked_up {
            Some(found) => found,
            None => None,
        }),
{
    match looked_up {
        Some(found) => found,
        None => None,
    }
}

/// The short id of a client: the low 32 bits of its transport id.
pub open spec fn short_id(client_id: u128) -> u32 {
    client_id as u32
}

/// Where among `client_ids` the first client with a short id is.
pub open spec fn position_of_client(client_ids: Seq<u128>, id: u32) -> Option<int>
    decreases client_ids.len(),
{
    if client_ids.len() == 0 {
        None
    } else {
        match position_of_client(client_ids.drop_last(), id) {
            Some(position) => Some(position),
            None => if short_id(client_ids.last()) == id {
                Some(client_ids.len() - 1)
            } else {
                None
            },
        }
    }
}

/// Where among `client_ids` the client is that a request names; none where it
/// names none, or one that is not connected.
pub fn find_client(client_ids: &[u128], named: Option<u32>) -> (position: Option<usize>)
    ensures
        match position {
            Some(found) => named is Some && position_of_client(client_ids@, named->0) == Some(
                found as int,
            ),
            None => named is None || position_of_client(client_ids@, named->0) is None,
        },
{
    let id: u32 = match named {
        Some(id) => id,
        None => return None,
    };
    let mut index: usize = 0;
    assert(client_ids@.take(0) =~= Seq::empty());
    while index < client_ids.len()
        invariant
            index <= client_ids@.len(),
            named == Some(id),
            position_of_client(client_ids@.take(index as int), id) is None,
        decreases client_ids@.len() - index,
    {
        proof {
            assert(client_ids@.take(index + 1).drop_last() =~= client_ids@.take(index as int));
            lemma_position_stays(client_ids@, id, index + 1);
        }
        if #[verifier::truncate]
        (client_ids[index] as u32) == id {
            return Some(index);
        }
        index = index + 1;
    }
    assert(client_ids@.take(index as int) =~= client_ids@);
    None
}

/// What is found among the first clients is found among all.
proof fn lemma_position_stays(client_ids: Seq<u128>, id: u32, i: int)
    requires
        0 <= i <= client_ids.len(),
    ensures
        position_of_client(client_ids.take(i), id) is Some ==> position_of_client(client_ids, id)
            == position_of_client(client_ids.take(i), id),
    decreases client_ids.len() - i,
{
    if i == client_ids.len() {
        assert(client_ids.take(i) =~= client_ids);
    } else {
        assert(client_ids.take(i + 1).drop_last() =~= client_ids.take(i));
        lemma_position_stays(client_ids, id, i + 1);
    }
}

/// A consumer group that a client belongs to.
#[derive(Debug, Clone, Copy, PartialEq, Eq, Structural)]
pub struct Membership {
    pub stream_id: u32,
    pub topic_id: u32,
    pub group_id: u32,
}

/// The memberships that are shown of a client: those of the id that its
/// transport is bound to, in their order, and none without such an id.
pub open spec fn memberships_of(bound: Option<u128>, found: Seq<(u32, u32, u32)>) -> Seq<
    Membership,
> {
    match bound {
        Some(_) => Seq::new(
            found.len(),
            |i: int|
                Membership { stream_id: found[i].0, topic_id: found[i].1, group_id: found[i].2 },
        ),
        None => Seq::empty(),
    }
}

/// The memberships that are shown of a client. `found` holds stream, topic and
/// group of each that was found for the id in `bound`.
pub fn client_memberships(bound: Option<u128>, found: &[(u32, u32, u32)]) -> (shown: Vec<
    Membership,
>)
    ensures
        shown@ == memberships_of(bound, found@),
{
    let mut shown: Vec<Membership> = Vec::new();
    if bound.is_none() {
        return shown;
    }
    let mut index: usize = 0;
    while index < found.len()
        invariant
            index <= found@.len(),
            bound is Some,
            shown@ == memberships_of(bound, found@.take(index as int)),
        decreases found@.len() - index,
    {
        let (stream_id, topic_id, group_id): (u32, u32, u32) = found[index];
        shown.push(Membership { stream_id, topic_id, group_id });
        index = index + 1;
    }
    assert(found@.take(index as int) =~= found@);
    shown
}

/// Whether a client belongs to any consumer group.
pub fn is_group_member(bound: Option<u128>, found: &[(u32, u32, u32)]) -> (member: bool)
    ensures
        member == (memberships_of(bound, found@).len() > 0),
{
    bound.is_some() && found.len() > 0
}

/// The largest frame that a client accepts.
pub const MAX_MESSAGE_SIZE: usize = 0x400_0000;

/// What to answer to a snapshot request.
#[derive(Debug, Clone, Copy, PartialEq, Eq, Structural)]
pub enum SnapshotReply {
    SendArchive,
    /// Answer with the error and an empty body.
    Deny(IggyError),
}

/// What to answer to a snapshot request, given the archive's length or why
/// there is none. A frame that is too large would only break the connection.
pub open spec fn snapshot_reply_of(archive_len: Result<usize, IggyError>) -> SnapshotReply {
    match archive_len {
        Ok(len) => if HEADER_SIZE + len > MAX_MESSAGE_SIZE {
            SnapshotReply::Deny(IggyError::SnapshotFileCompletionFailed)
        } else {
            SnapshotReply::SendArchive
        },
        Err(error) => SnapshotReply::Deny(error),
    }
}

/// Decides what to answer to a snapshot request.
pub fn snapshot_reply(archive_len: Result<usize, IggyError>) -> (reply: SnapshotReply)
    ensures
        reply == snapshot_reply_of(archive_len),
{
    match archive_len {
        Ok(len) => if len > MAX_MESSAGE_SIZE - HEADER_SIZE {
            SnapshotReply::Deny(IggyError::SnapshotFileCompletionFailed)
        } else {
            SnapshotReply::SendArchive
        },
        Err(error) => SnapshotReply::Deny(error),
    }
}

/// A code that was looked up: what it stands for, or why it stands for
/// nothing.
pub type LookedUp = Result<u8, IggyError>;

/// What a snapshot request asks for: the first code that stands for nothing
/// decides the error.
pub open spec fn snapshot_request_of(compression: LookedUp, types: Seq<LookedUp>) -> Result<
    (u8, Seq<u8>),
    IggyError,
>
    decreases types.len(),
{
    if types.len() == 0 {
        match compression {
            Ok(code) => Ok((code, Seq::empty())),
            Err(error) => Err(error),
        }
    } else {
        match (snapshot_request_of(compression, types.drop_last()), types.last()) {
            (Err(error), _) => Err(error),
            (Ok(_), Err(error)) => Err(error),
            (Ok((code, earlier)), Ok(last)) => Ok((code, earlier.push(last))),
        }
    }
}

/// What a snapshot request asks for: the compression, and the kinds of
/// snapshot. `decoded` holds what its codes stand for, and is none where the
/// body could not be decoded.
pub fn decode_get_snapshot(decoded: Option<(LookedUp, Vec<LookedUp>)>) -> (request: Result<
    (u8, Vec<u8>),
    IggyError,
>)
    ensures
        match decoded {
            None => request matches Err(error) && error == IggyError::InvalidCommand,
            Some((compression, types)) => match snapshot_request_of(compression, types@) {
                Ok((code, kinds)) => request matches Ok((found, found_kinds)) && found == code
                    && found_kinds@ == kinds,
                Err(error) => request matches Err(found) && found == error,
            },
        },
{
    let (compression, types): (LookedUp, Vec<LookedUp>) = match decoded {
        Some(codes) => codes,
        None => return Err(IggyError::InvalidCommand),
    };
    let ghost all = types@;
    proof {
        lemma_snapshot_error_stays(compression, all, 0);
        assert(all.take(0) =~= Seq::empty());
    }
    let code: u8 = match compression {
        Ok(code) => code,
        Err(error) => return Err(error),
    };
    let mut kinds: Vec<u8> = Vec::new();
    let mut index: usize = 0;
    while index < types.len()
        invariant
            index <= types@.len(),
            all == types@,
            snapshot_request_of(compression, all.take(index as int)) == Ok::<_, IggyError>(
                (code, kinds@),
            ),
            decoded == Some((compression, types)),
        decreases types@.len() - index,
    {
        proof {
            assert(all.take(index + 1).drop_last() =~= all.take(index as int));
            lemma_snapshot_error_stays(compression, all, index + 1);
        }
        match types[index] {
            Ok(kind) => kinds.push(kind),
            Err(error) => return Err(error),
        }
        index = index + 1;
    }
    assert(all.take(index as int) =~= all);
    Ok((code, kinds))
}

/// An error among the first codes is the error of all.
proof fn lemma_snapshot_error_stays(compression: LookedUp, types: Seq<LookedUp>, i: int)
    requires
        0 <= i <= types.len(),
    ensures
        snapshot_request_of(compression, types.take(i)) is Err ==> snapshot_request_of(
            compression,
            types,
        ) == snapshot_request_of(compression, types.take(i)),
    decreases types.len() - i,
{
    if i == types.len() {
        assert(types.take(i) =~= types);
    } else {
        assert(types.take(i + 1).drop_last() =~= types.take(i));
        lemma_snapshot_error_stays(compression, types, i + 1);
    }
}

} // verus!
