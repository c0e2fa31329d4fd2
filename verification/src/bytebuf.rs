//! Trusted boundary to the byte buffers of the `bytes` crate.
//!
//! The gateway hands complete objects out as `bytes::Bytes`, built by
//! folding chunks into a `bytes::BytesMut`, exactly as the backend SDK
//! expects. The buffers are opaque here; `bytes_seq` and
//! `bytes_mut_seq` name their contents, and the wrappers state how each
//! call moves those contents.

use vstd::prelude::*;

verus! {

#[verifier::external_type_specification]
#[verifier::external_body]
pub struct ExBytes(bytes::Bytes);

#[verifier::external_type_specification]
#[verifier::external_body]
pub struct ExBytesMut(bytes::BytesMut);

/// The bytes an immutable `bytes::Bytes` buffer holds, in order.
pub uninterp spec fn bytes_seq(b: bytes::Bytes) -> Seq<u8>;

/// The bytes a mutable `bytes::BytesMut` buffer holds, in order.
pub uninterp spec fn bytes_mut_seq(b: bytes::BytesMut) -> Seq<u8>;

/// Relies on bytes::BytesMut::new: creates a buffer holding nothing.
#[verifier::external_body]
pub(crate) fn bytes_mut_new() -> (r: bytes::BytesMut)
    ensures
        bytes_mut_seq(r) == Seq::<u8>::empty(),
{
    bytes::BytesMut::new()
}

/// Relies on bytes::BytesMut::extend_from_slice: appends the given
/// bytes to the buffer.
#[verifier::external_body]
pub(crate) fn bytes_mut_extend(acc: &mut bytes::BytesMut, chunk: &Vec<u8>)
    ensures
        bytes_mut_seq(*final(acc)) == bytes_mut_seq(*old(acc)) + chunk@,
{
    acc.extend_from_slice(chunk.as_slice());
}

/// Relies on bytes::BytesMut::freeze: converts the buffer into an
/// immutable one holding the same bytes.
#[verifier::external_body]
pub(crate) fn bytes_mut_freeze(m: bytes::BytesMut) -> (r: bytes::Bytes)
    ensures
        bytes_seq(r) == bytes_mut_seq(m),
{
    m.freeze()
}

} // verus!
