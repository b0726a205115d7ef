//! Frames of the consensus protocol: a fixed-size header and a body.
use vstd::prelude::*;

verus! {

/// Bytes of every frame's header.
pub const HEADER_SIZE: usize = 256;

/// What a frame asks for. Operations that no rule here tells apart share a
/// variant.
#[derive(Debug, Clone, Copy, PartialEq, Eq, Structural)]
pub enum Operation {
    /// A read that is served without consensus.
    NonReplicated,
    Register,
    Logout,
    DeleteSegments,
    TruncatePartition,
    SendMessages,
    StoreConsumerOffset2,
    /// Any other operation of the partition plane.
    OtherPartition,
    /// Any other operation of the metadata plane.
    OtherMetadata,
}

impl Operation {
    /// Whether the operation runs in a partition's own consensus group.
    pub open spec fn on_partition(self) -> bool {
        self is SendMessages || self is StoreConsumerOffset2 || self is OtherPartition
    }

    /// Whether the operation runs in a partition's own consensus group.
    pub fn is_partition(&self) -> (partition: bool)
        ensures
            partition == self.on_partition(),
    {
        matches!(
            self,
            Operation::SendMessages | Operation::StoreConsumerOffset2 | Operation::OtherPartition
        )
    }
}

/// The fields of a request's header.
#[derive(Debug, Clone, Copy, PartialEq, Eq, Structural)]
pub struct RequestHeader {
    pub cluster: u128,
    pub view: u32,
    pub release: u32,
    pub operation: Operation,
    /// Bytes of the header and the body together.
    pub size: u32,
    pub client: u128,
    pub session: u64,
    pub request: u64,
    pub namespace: u64,
    pub user_id: u32,
    /// Command code of a non-replicated read.
    pub code: u32,
}

/// The fields of a prepare's header that the batch format depends on.
#[derive(Debug, Clone, Copy, PartialEq, Eq, Structural)]
pub struct PrepareHeader {
    /// Bytes of the header and the body together.
    pub size: u32,
}

/// A frame: its header's fields and the bytes behind the header.
#[derive(Debug, Clone, PartialEq, Eq)]
pub struct Message<H> {
    pub header: H,
    pub body: Vec<u8>,
}

impl Message<RequestHeader> {
    /// The announced size covers the header and lies inside the frame.
    pub open spec fn wf(self) -> bool {
        HEADER_SIZE <= self.header.size <= HEADER_SIZE + self.body@.len()
    }

    /// The part of the body that the announced size covers.
    pub open spec fn payload(self) -> Seq<u8> {
        self.body@.subrange(0, self.header.size - HEADER_SIZE)
    }

    /// The part of the body that the announced size covers.
    pub fn request_body(&self) -> (payload: &[u8])
        requires
            self.wf(),
        ensures
            payload@ == self.payload(),
    {
        &self.body.as_slice()[0..self.header.size as usize - HEADER_SIZE]
    }
}

impl Message<PrepareHeader> {
    /// The announced size lies inside the frame.
    pub open spec fn wf(self) -> bool {
        self.header.size <= HEADER_SIZE + self.body@.len()
    }
}

} // verus!
