//! Partition identities.
use vstd::prelude::*;

verus! {

/// The stream, topic and partition that a request or a record belongs to.
#[derive(Debug, Clone, Copy, PartialEq, Eq, Hash, Structural)]
pub struct IggyNamespace {
    pub stream_id: usize,
    pub topic_id: usize,
    pub partition_id: usize,
}

impl IggyNamespace {
    /// The namespace of one partition.
    pub fn new(stream_id: usize, topic_id: usize, partition_id: usize) -> (namespace: Self)
        ensures
            namespace == (IggyNamespace { stream_id, topic_id, partition_id }),
    {
        IggyNamespace { stream_id, topic_id, partition_id }
    }
}

} // verus!
