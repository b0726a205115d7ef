//! XXH3-64, the hash behind every checksum of the wire format.
use std::hash::Hasher;
use twox_hash::XxHash3_64;
use vstd::prelude::*;

verus! {

/// What `XxHash3_64::oneshot` returns for `data`.
pub uninterp spec fn xxh3_64(data: Seq<u8>) -> u64;

/// The bytes that were written to `hasher` since it was made.
pub uninterp spec fn hashed_bytes(hasher: XxHash3_64) -> Seq<u8>;

#[verifier::external_type_specification]
#[verifier::external_body]
pub struct ExXxHash3(XxHash3_64);

/// `XxHash3_64::oneshot`: the hash, with the default seed, of all of `data`.
#[verifier::external_body]
pub(crate) fn xxh3_oneshot(data: &[u8]) -> (hash: u64)
    ensures
        hash == xxh3_64(data@),
{
    XxHash3_64::oneshot(data)
}

/// `XxHash3_64::new`: a hasher with the default seed that has seen no byte.
#[verifier::external_body]
pub(crate) fn xxh3_new() -> (hasher: XxHash3_64)
    ensures
        hashed_bytes(hasher) == Seq::<u8>::empty(),
{
    XxHash3_64::new()
}

/// `Hasher::write` of `XxHash3_64`: appends `data` to the bytes seen.
#[verifier::external_body]
pub(crate) fn xxh3_write(hasher: &mut XxHash3_64, data: &[u8])
    ensures
        hashed_bytes(*final(hasher)) == hashed_bytes(*old(hasher)) + data@,
{
    hasher.write(data)
}

/// `Hasher::finish` of `XxHash3_64`: the hash of all bytes seen, the same
/// value that `oneshot` returns for their concatenation.
#[verifier::external_body]
pub(crate) fn xxh3_finish(hasher: &XxHash3_64) -> (hash: u64)
    ensures
        hash == xxh3_64(hashed_bytes(*hasher)),
{
    hasher.finish()
}

} // verus!
