//! Byte buffers of the `bytes` crate.
use bytes::{Buf, BufMut};
use crate::wire;
use vstd::prelude::*;

verus! {

/// An immutable buffer that is cheap to share.
#[verifier::external_type_specification]
#[verifier::external_body]
pub struct ExBytes(bytes::Bytes);

/// A buffer that grows at its end and is consumed from its front.
#[verifier::external_type_specification]
#[verifier::external_body]
pub struct ExBytesMut(bytes::BytesMut);

/// The bytes that an immutable buffer holds.
pub uninterp spec fn bytes_contents(b: bytes::Bytes) -> Seq<u8>;

/// The bytes that a growing buffer holds, from its front.
pub uninterp spec fn buffer_contents(b: bytes::BytesMut) -> Seq<u8>;

/// Sizes up to which a buffer grows without meeting a limit of the allocator.
pub const BUFFER_LIMIT: usize = 0x1000_0000;

/// `Bytes::copy_from_slice` makes a buffer that holds the bytes of `data`.
#[verifier::external_body]
pub(crate) fn bytes_copy_from_slice(data: &[u8]) -> (r: bytes::Bytes)
    ensures
        bytes_contents(r) == data@,
{
    bytes::Bytes::copy_from_slice(data)
}

/// `Bytes` as a slice (`Deref`) gives the bytes that the buffer holds.
#[verifier::external_body]
pub(crate) fn bytes_as_slice(b: &bytes::Bytes) -> (r: &[u8])
    ensures
        r@ == bytes_contents(*b),
{
    b
}

/// `BytesMut::new` makes an empty buffer.
#[verifier::external_body]
pub(crate) fn buffer_new() -> (r: bytes::BytesMut)
    ensures
        buffer_contents(r) == Seq::<u8>::empty(),
{
    bytes::BytesMut::new()
}

/// `BytesMut::reserve` makes room and leaves the contents as they are.
#[verifier::external_body]
pub(crate) fn buffer_reserve(b: &mut bytes::BytesMut, additional: usize)
    requires
        buffer_contents(*old(b)).len() + additional <= BUFFER_LIMIT,
    ensures
        buffer_contents(*final(b)) == buffer_contents(*old(b)),
{
    b.reserve(additional)
}

/// `BufMut::put_u8` appends one byte.
#[verifier::external_body]
pub(crate) fn buffer_put_u8(b: &mut bytes::BytesMut, n: u8)
    requires
        buffer_contents(*old(b)).len() + 1 <= BUFFER_LIMIT,
    ensures
        buffer_contents(*final(b)) == buffer_contents(*old(b)).push(n),
{
    b.put_u8(n)
}

/// `BufMut::put_u16_le` appends two bytes, the least significant one first.
#[verifier::external_body]
pub(crate) fn buffer_put_u16_le(b: &mut bytes::BytesMut, n: u16)
    requires
        buffer_contents(*old(b)).len() + 2 <= BUFFER_LIMIT,
    ensures
        buffer_contents(*final(b)) == buffer_contents(*old(b)) + wire::u16_le(n),
{
    b.put_u16_le(n)
}

/// `BufMut::put_slice` appends the bytes of `data`.
#[verifier::external_body]
pub(crate) fn buffer_put_slice(b: &mut bytes::BytesMut, data: &[u8])
    requires
        buffer_contents(*old(b)).len() + data@.len() <= BUFFER_LIMIT,
    ensures
        buffer_contents(*final(b)) == buffer_contents(*old(b)) + data@,
{
    b.put_slice(data)
}

/// `Buf::advance` drops the first `n` bytes, and panics when there are fewer.
#[verifier::external_body]
pub(crate) fn buffer_advance(b: &mut bytes::BytesMut, n: usize)
    requires
        n <= buffer_contents(*old(b)).len(),
    ensures
        buffer_contents(*final(b)) == buffer_contents(*old(b)).skip(n as int),
{
    b.advance(n)
}

/// `BytesMut` as a slice (`Deref`) gives the bytes that the buffer holds.
#[verifier::external_body]
pub(crate) fn buffer_as_slice(b: &bytes::BytesMut) -> (r: &[u8])
    ensures
        r@ == buffer_contents(*b),
{
    b
}

} // verus!
