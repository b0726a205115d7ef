//! Byte buffers of the `bytes` crate.
use crate::codec::le_at;
use bytes::{Buf, Bytes, BytesMut};
use vstd::prelude::*;

verus! {

/// The bytes that a `Bytes` handle refers to.
pub uninterp spec fn bytes_of(bytes: Bytes) -> Seq<u8>;

/// The bytes that a `BytesMut` holds, up to its length.
pub uninterp spec fn bytes_mut_of(bytes: BytesMut) -> Seq<u8>;

#[verifier::external_type_specification]
#[verifier::external_body]
pub struct ExBytes(Bytes);

#[verifier::external_type_specification]
#[verifier::external_body]
pub struct ExBytesMut(BytesMut);

/// `Bytes::clone`: another handle to the same bytes.
pub assume_specification[ <Bytes as Clone>::clone ](bytes: &Bytes) -> (handle: Bytes)
    ensures
        bytes_of(handle) == bytes_of(*bytes),
;

/// `Bytes::deref`: the bytes as a slice.
#[verifier::external_body]
pub(crate) fn bytes_as_slice(bytes: &Bytes) -> (slice: &[u8])
    ensures
        slice@ == bytes_of(*bytes),
{
    bytes
}

/// `BytesMut::new`: an empty buffer.
#[verifier::external_body]
pub(crate) fn bytes_mut_new() -> (buffer: BytesMut)
    ensures
        bytes_mut_of(buffer) == Seq::<u8>::empty(),
{
    BytesMut::new()
}

/// `BytesMut::extend_from_slice`: appends `data`. It panics where the new
/// length passes what one allocation can hold.
#[verifier::external_body]
pub(crate) fn bytes_mut_extend(buffer: &mut BytesMut, data: &[u8])
    requires
        bytes_mut_of(*old(buffer)).len() + data@.len() <= isize::MAX,
    ensures
        bytes_mut_of(*final(buffer)) == bytes_mut_of(*old(buffer)) + data@,
{
    buffer.extend_from_slice(data)
}

/// `BytesMut::freeze`: the same bytes as a shared handle.
#[verifier::external_body]
pub(crate) fn bytes_mut_freeze(buffer: BytesMut) -> (bytes: Bytes)
    ensures
        bytes_of(bytes) == bytes_mut_of(buffer),
{
    buffer.freeze()
}

/// `Bytes::from(Vec<u8>)`: the vector's bytes as a shared handle.
#[verifier::external_body]
pub(crate) fn bytes_from_vec(data: Vec<u8>) -> (bytes: Bytes)
    ensures
        bytes_of(bytes) == data@,
{
    Bytes::from(data)
}

/// `Buf::get_u64_le` of a byte slice: the first eight bytes as a
/// little-endian number, and the slice behind them. It panics where there are
/// fewer.
#[verifier::external_body]
pub(crate) fn take_u64_le(view: &[u8]) -> (taken: (u64, &[u8]))
    requires
        view@.len() >= 8,
    ensures
        taken.0 == le_at(view@, 0, 8),
        taken.1@ == view@.subrange(8, view@.len() as int),
{
    let mut rest = view;
    let value: u64 = rest.get_u64_le();
    (value, rest)
}

} // verus!
