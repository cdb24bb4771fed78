//! The growing byte buffer that replay files are built in.
use crate::bin;
use bytes::{BufMut, BytesMut};
use vstd::prelude::*;

verus! {

/// `bytes::BytesMut`, a growing buffer of bytes.
#[verifier::external_type_specification]
#[verifier::external_body]
pub struct ExBytesMut(bytes::BytesMut);

/// The bytes that a buffer holds.
pub uninterp spec fn contents(buf: BytesMut) -> Seq<u8>;

/// The number of bytes that a buffer was made for.
pub uninterp spec fn made_for(buf: BytesMut) -> nat;

/// The number of bytes up to which a buffer grows without a panic: it grows by doubling,
/// and an allocation holds at most `isize::MAX` bytes.
pub open spec fn max_buffer() -> nat {
    (isize::MAX / 2) as nat
}

/// Whether so many more bytes can be appended without a panic: a buffer takes as many as it
/// was made for without growing.
pub open spec fn room_for(buf: BytesMut, more: nat) -> bool {
    contents(buf).len() + more <= max_buffer() || contents(buf).len() + more <= made_for(buf)
}

/// `BytesMut::new` gives an empty buffer, made for no bytes.
#[verifier::external_body]
pub(crate) fn new_buffer() -> (res: BytesMut)
    ensures
        contents(res) == Seq::<u8>::empty(),
        made_for(res) == 0,
{
    BytesMut::new()
}

/// `BytesMut::with_capacity` gives an empty buffer, made for so many bytes.
#[verifier::external_body]
pub(crate) fn buffer_with_capacity(capacity: usize) -> (res: BytesMut)
    requires
        capacity <= isize::MAX,
    ensures
        contents(res) == Seq::<u8>::empty(),
        made_for(res) == capacity,
{
    BytesMut::with_capacity(capacity)
}

/// `BufMut::put_slice` appends bytes.
#[verifier::external_body]
pub(crate) fn put_slice(buf: &mut BytesMut, src: &[u8])
    requires
        room_for(*old(buf), src@.len()),
    ensures
        contents(*final(buf)) == contents(*old(buf)) + src@,
        made_for(*final(buf)) == made_for(*old(buf)),
{
    buf.put_slice(src)
}

/// `BufMut::put_u8` appends one byte.
#[verifier::external_body]
pub(crate) fn put_u8(buf: &mut BytesMut, n: u8)
    requires
        room_for(*old(buf), 1),
    ensures
        contents(*final(buf)) == contents(*old(buf)).push(n),
        made_for(*final(buf)) == made_for(*old(buf)),
{
    buf.put_u8(n)
}

/// `BufMut::put_u16_le` appends the two little endian bytes of a number.
#[verifier::external_body]
pub(crate) fn put_u16_le(buf: &mut BytesMut, n: u16)
    requires
        room_for(*old(buf), 2),
    ensures
        contents(*final(buf)) == contents(*old(buf)) + bin::le_bytes(n as nat, 2),
        made_for(*final(buf)) == made_for(*old(buf)),
{
    buf.put_u16_le(n)
}

/// `BufMut::put_u32_le` appends the four little endian bytes of a number.
#[verifier::external_body]
pub(crate) fn put_u32_le(buf: &mut BytesMut, n: u32)
    requires
        room_for(*old(buf), 4),
    ensures
        contents(*final(buf)) == contents(*old(buf)) + bin::le_bytes(n as nat, 4),
        made_for(*final(buf)) == made_for(*old(buf)),
{
    buf.put_u32_le(n)
}

/// `BufMut::put_i32_le` appends the four little endian bytes of the two's complement of a
/// number.
#[verifier::external_body]
pub(crate) fn put_i32_le(buf: &mut BytesMut, n: i32)
    requires
        room_for(*old(buf), 4),
    ensures
        contents(*final(buf)) == contents(*old(buf)) + bin::le_bytes(
            bin::unsigned32(n) as nat,
            4,
        ),
        made_for(*final(buf)) == made_for(*old(buf)),
{
    buf.put_i32_le(n)
}

/// `BufMut::put_u64_le` appends the eight little endian bytes of a number.
#[verifier::external_body]
pub(crate) fn put_u64_le(buf: &mut BytesMut, n: u64)
    requires
        room_for(*old(buf), 8),
    ensures
        contents(*final(buf)) == contents(*old(buf)) + bin::le_bytes(n as nat, 8),
        made_for(*final(buf)) == made_for(*old(buf)),
{
    buf.put_u64_le(n)
}

/// `BytesMut::freeze` gives the bytes as they are; they are copied out to a `Vec`.
#[verifier::external_body]
pub(crate) fn into_vec(buf: BytesMut) -> (res: Vec<u8>)
    ensures
        res@ == contents(buf),
{
    buf.freeze().to_vec()
}

} // verus!
