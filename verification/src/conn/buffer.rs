//! The receive buffer: a `bytes::BytesMut`, seen through the sequence of bytes
//! it holds. Nothing here is proved: each function states what the `bytes`
//! crate does, and the rest of the library is verified against that.

use super::frame::be_u32;
use bytes::Buf;
use vstd::prelude::*;

verus! {

/// `bytes::BytesMut`, opaque to the verifier.
#[verifier::external_type_specification]
#[verifier::external_body]
pub struct ExBytesMut(bytes::BytesMut);

/// The bytes that a buffer holds, front first: what `&buf[..]` shows.
pub uninterp spec fn buffered(buf: bytes::BytesMut) -> Seq<u8>;

/// `BytesMut::with_capacity`: a buffer that holds no bytes. The capacity is
/// room set aside, not content; a request above `isize::MAX` panics.
#[verifier::external_body]
pub(crate) fn buffer_with_capacity(capacity: usize) -> (buf: bytes::BytesMut)
    requires
        capacity <= isize::MAX,
    ensures
        buffered(buf) == Seq::<u8>::empty(),
{
    bytes::BytesMut::with_capacity(capacity)
}

/// `BytesMut::len`: the number of bytes held.
#[verifier::external_body]
pub(crate) fn buffer_len(buf: &bytes::BytesMut) -> (n: usize)
    ensures
        n == buffered(*buf).len(),
{
    buf.len()
}

/// `BytesMut::extend_from_slice`: appends `data` behind the bytes held. It
/// reserves room first, which panics when the capacity asked for overflows,
/// so the total is kept within what one allocation can hold. Whether the
/// allocator has that much to give is outside this model.
#[verifier::external_body]
pub(crate) fn buffer_extend(buf: &mut bytes::BytesMut, data: &[u8])
    requires
        buffered(*old(buf)).len() + data@.len() <= isize::MAX,
    ensures
        buffered(*final(buf)) == buffered(*old(buf)) + data@,
{
    buf.extend_from_slice(data)
}

/// `Buf::get_u32` on a `BytesMut`: reads the first four bytes as a big-endian
/// unsigned integer and removes them from the front. It panics on fewer than
/// four bytes.
#[verifier::external_body]
pub(crate) fn buffer_get_u32(buf: &mut bytes::BytesMut) -> (n: u32)
    requires
        buffered(*old(buf)).len() >= 4,
    ensures
        n == be_u32(buffered(*old(buf)).subrange(0, 4)),
        buffered(*final(buf)) == buffered(*old(buf)).subrange(4, buffered(*old(buf)).len() as int),
{
    buf.get_u32()
}

/// `Buf::advance` on a `BytesMut`: removes the first `count` bytes. It panics
/// when `count` is more than the buffer holds.
#[verifier::external_body]
pub(crate) fn buffer_advance(buf: &mut bytes::BytesMut, count: usize)
    requires
        count <= buffered(*old(buf)).len(),
    ensures
        buffered(*final(buf)) == buffered(*old(buf)).subrange(
            count as int,
            buffered(*old(buf)).len() as int,
        ),
{
    buf.advance(count)
}

/// The slice `&buf[0..count]` of a `BytesMut`, copied out: the first `count`
/// bytes, the buffer unchanged. Slicing panics when `count` is more than the
/// buffer holds.
#[verifier::external_body]
pub(crate) fn buffer_prefix(buf: &bytes::BytesMut, count: usize) -> (front: Vec<u8>)
    requires
        count <= buffered(*buf).len(),
    ensures
        front@ == buffered(*buf).subrange(0, count as int),
{
    buf[0..count].to_vec()
}

} // verus!
