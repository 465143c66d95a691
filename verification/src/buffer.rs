//! Shared byte buffers: what a [`bytes::Bytes`] holds, and the few operations on it that
//! the rest of the library needs.

use bytes::Bytes;
use vstd::prelude::*;

verus! {

/// The reference-counted byte buffer that holds a frame's pixels.
#[verifier::external_type_specification]
#[verifier::external_body]
pub struct ExBytes(Bytes);

/// The bytes that a buffer holds, first byte first.
pub uninterp spec fn contents(buffer: Bytes) -> Seq<u8>;

/// `Bytes::deref`: the buffer's bytes as a slice, unchanged and in order.
#[verifier::external_body]
pub(crate) fn as_slice(buffer: &Bytes) -> (slice: &[u8])
    ensures
        slice@ == contents(*buffer),
{
    buffer
}

/// `Bytes::copy_from_slice`: a new buffer that holds a copy of the slice.
#[verifier::external_body]
pub(crate) fn copy_from_slice(data: &[u8]) -> (buffer: Bytes)
    ensures
        contents(buffer) == data@,
{
    Bytes::copy_from_slice(data)
}

/// `Bytes::clone`: another handle on the same bytes.
#[verifier::external_body]
pub(crate) fn share(buffer: &Bytes) -> (other: Bytes)
    ensures
        contents(other) == contents(*buffer),
{
    buffer.clone()
}

} // verus!
