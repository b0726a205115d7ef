//! Messages before they are put into a batch.
use crate::buffers::{bytes_as_slice, bytes_of};
use bytes::Bytes;
use vstd::prelude::*;

verus! {

/// What is known of a message apart from its bytes.
#[derive(Debug, Clone, Copy, PartialEq, Eq, Structural)]
pub struct IggyMessage2Header {
    pub checksum: u64,
    /// Zero where the message has no id of its own.
    pub id: u128,
    pub offset: u64,
    pub timestamp: u64,
    pub origin_timestamp: u64,
    pub user_headers_length: u32,
    pub payload_length: u32,
}

impl Default for IggyMessage2Header {
    fn default() -> (header: Self)
        ensures
            header == (IggyMessage2Header {
                checksum: 0,
                id: 0,
                offset: 0,
                timestamp: 0,
                origin_timestamp: 0,
                user_headers_length: 0,
                payload_length: 0,
            }),
    {
        IggyMessage2Header {
            checksum: 0,
            id: 0,
            offset: 0,
            timestamp: 0,
            origin_timestamp: 0,
            user_headers_length: 0,
            payload_length: 0,
        }
    }
}

/// A message with its bytes.
#[derive(Debug, PartialEq, Eq)]
pub struct IggyMessage2 {
    pub header: IggyMessage2Header,
    pub payload: Bytes,
    pub user_headers: Option<Bytes>,
}

impl IggyMessage2 {
    /// The payload's bytes.
    pub open spec fn payload_bytes(self) -> Seq<u8> {
        bytes_of(self.payload)
    }

    /// The bytes of the user headers; none where the message has no headers.
    pub open spec fn user_header_bytes(self) -> Seq<u8> {
        match self.user_headers {
            Some(bytes) => bytes_of(bytes),
            None => Seq::empty(),
        }
    }

    /// Whether this is the same message as `other`, byte for byte.
    pub open spec fn same_as(self, other: Self) -> bool {
        &&& self.header == other.header
        &&& self.payload_bytes() == other.payload_bytes()
        &&& self.user_headers is Some == other.user_headers is Some
        &&& self.user_header_bytes() == other.user_header_bytes()
    }

    pub(crate) fn payload_slice(&self) -> (slice: &[u8])
        ensures
            slice@ == self.payload_bytes(),
    {
        bytes_as_slice(&self.payload)
    }

    pub(crate) fn user_headers_slice(&self) -> (slice: &[u8])
        ensures
            slice@ == self.user_header_bytes(),
    {
        match &self.user_headers {
            Some(bytes) => bytes_as_slice(bytes),
            None => &[],
        }
    }
}

impl Clone for IggyMessage2 {
    fn clone(&self) -> (copy: Self)
        ensures
            copy.same_as(*self),
    {
        IggyMessage2 {
            header: self.header,
            payload: self.payload.clone(),
            user_headers: match &self.user_headers {
                Some(bytes) => Some(bytes.clone()),
                None => None,
            },
        }
    }
}

/// Messages in sending order.
#[derive(Debug, PartialEq, Eq)]
pub struct IggyMessages2 {
    messages: Vec<IggyMessage2>,
}

impl View for IggyMessages2 {
    type V = Seq<IggyMessage2>;

    closed spec fn view(&self) -> Seq<IggyMessage2> {
        self.messages@
    }
}

impl Clone for IggyMessages2 {
    fn clone(&self) -> (copy: Self)
        ensures
            copy@.len() == self@.len(),
            forall|i: int|
                0 <= i < copy@.len() ==> (#[trigger] copy@[i]).same_as(self@[i]),
    {
        let mut messages: Vec<IggyMessage2> = Vec::new();
        let mut index: usize = 0;
        while index < self.messages.len()
            invariant
                index <= self.messages@.len(),
                messages@.len() == index,
                forall|i: int|
                    0 <= i < messages@.len() ==> (#[trigger] messages@[i]).same_as(
                        self.messages@[i],
                    ),
            decreases self.messages@.len() - index,
        {
            messages.push(self.messages[index].clone());
            index = index + 1;
        }
        IggyMessages2 { messages }
    }
}

impl Default for IggyMessages2 {
    fn default() -> (messages: Self)
        ensures
            messages@ == Seq::<IggyMessage2>::empty(),
    {
        IggyMessages2 { messages: Vec::new() }
    }
}

impl IggyMessages2 {
    /// No messages.
    pub fn empty() -> (messages: Self)
        ensures
            messages@ == Seq::<IggyMessage2>::empty(),
    {
        IggyMessages2 { messages: Vec::new() }
    }

    /// No messages, and room for `capacity` of them.
    pub fn with_capacity(capacity: usize) -> (messages: Self)
        ensures
            messages@ == Seq::<IggyMessage2>::empty(),
    {
        IggyMessages2 { messages: Vec::with_capacity(capacity) }
    }

    /// Adds `message` at the end.
    pub fn push(&mut self, message: IggyMessage2)
        ensures
            final(self)@ == old(self)@.push(message),
    {
        self.messages.push(message);
    }

    /// How many messages there are, or the largest count where they are more.
    pub fn count(&self) -> (count: u32)
        ensures
            count == count_of(self@.len()),
    {
        if self.messages.len() > u32::MAX as usize {
            u32::MAX
        } else {
            self.messages.len() as u32
        }
    }

    /// Whether there is no message.
    pub fn is_empty(&self) -> (empty: bool)
        ensures
            empty == (self@.len() == 0),
    {
        self.messages.is_empty()
    }

    /// The offset of the first message.
    pub fn first_offset(&self) -> (offset: Option<u64>)
        ensures
            offset == (if self@.len() == 0 {
                None::<u64>
            } else {
                Some(self@[0].header.offset)
            }),
    {
        if self.messages.len() == 0 {
            None
        } else {
            Some(self.messages[0].header.offset)
        }
    }

    /// The offset of the last message.
    pub fn last_offset(&self) -> (offset: Option<u64>)
        ensures
            offset == (if self@.len() == 0 {
                None::<u64>
            } else {
                Some(self@.last().header.offset)
            }),
    {
        if self.messages.len() == 0 {
            None
        } else {
            Some(self.messages[self.messages.len() - 1].header.offset)
        }
    }

    /// The first `count` messages, or all where they are fewer.
    pub fn limit(self, count: u32) -> (limited: Self)
        ensures
            limited@ == (if count <= self@.len() {
                self@.subrange(0, count as int)
            } else {
                self@
            }),
    {
        let mut messages = self.messages;
        if (count as u64) < messages.len() as u64 {
            messages.truncate(count as usize);
        }
        assert(count == self@.len() ==> self@.subrange(0, count as int) =~= self@);
        IggyMessages2 { messages }
    }

    /// The messages in order.
    pub fn iter(&self) -> (messages: std::slice::Iter<'_, IggyMessage2>)
        ensures
            vstd::std_specs::iter::IteratorSpec::remaining(&messages) == self@.as_ref(),
    {
        self.messages.iter()
    }

    pub(crate) fn as_slice(&self) -> (messages: &[IggyMessage2])
        ensures
            messages@ == self@,
    {
        self.messages.as_slice()
    }
}

impl IntoIterator for IggyMessages2 {
    type Item = IggyMessage2;

    type IntoIter = std::vec::IntoIter<IggyMessage2>;

    fn into_iter(self) -> (messages: std::vec::IntoIter<IggyMessage2>)
        ensures
            vstd::std_specs::iter::IteratorSpec::remaining(&messages) == self@,
    {
        self.messages.into_iter()
    }
}

impl<'a> IntoIterator for &'a IggyMessages2 {
    type Item = &'a IggyMessage2;

    type IntoIter = std::slice::Iter<'a, IggyMessage2>;

    fn into_iter(self) -> (messages: std::slice::Iter<'a, IggyMessage2>)
        ensures
            vstd::std_specs::iter::IteratorSpec::remaining(&messages) == self@.as_ref(),
    {
        self.messages.iter()
    }
}

/// The message count that a batch of `len` messages announces.
pub open spec fn count_of(len: nat) -> u32 {
    if len > u32::MAX {
        u32::MAX
    } else {
        len as u32
    }
}

} // verus!
