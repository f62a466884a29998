//! Byte buffers of the `bytes` crate.
use bytes::{Buf, Bytes, BytesMut};

use vstd::prelude::*;
use vstd::utf8::encode_utf8;

verus! {

/// A growable buffer of bytes, from the `bytes` crate.
#[verifier::external_type_specification]
#[verifier::external_body]
pub struct ExBytesMut(bytes::BytesMut);

/// An immutable chunk of bytes, from the `bytes` crate.
#[verifier::external_type_specification]
#[verifier::external_body]
pub struct ExBytes(bytes::Bytes);

/// The readable bytes of a buffer.
pub uninterp spec fn buffer_bytes(buffer: BytesMut) -> Seq<u8>;

/// Whether [`BytesMut::with_capacity`] gives `buffer` for `capacity`.
pub open spec fn made_with_capacity(buffer: BytesMut, capacity: usize) -> bool {
    call_ensures(BytesMut::with_capacity, (capacity,), buffer)
}

/// Whether [`BytesMut::capacity`] gives `capacity` for `buffer`.
pub open spec fn has_capacity(buffer: BytesMut, capacity: usize) -> bool {
    call_ensures(BytesMut::capacity, (&buffer,), capacity)
}

/// The bytes of a chunk.
pub uninterp spec fn chunk_bytes(chunk: Bytes) -> Seq<u8>;

/// [`BytesMut::with_capacity`] makes a buffer without readable bytes. It panics
/// where the capacity would pass the address space.
pub assume_specification[ BytesMut::with_capacity ](capacity: usize) -> (buffer: BytesMut)
    requires
        capacity <= isize::MAX,
    ensures
        buffer_bytes(buffer) == Seq::<u8>::empty(),
;

/// [`BytesMut::len`] counts the readable bytes.
pub assume_specification[ BytesMut::len ](buffer: &BytesMut) -> (len: usize)
    ensures
        len == buffer_bytes(*buffer).len(),
;

/// [`BytesMut::is_empty`] asks whether there are readable bytes.
pub assume_specification[ BytesMut::is_empty ](buffer: &BytesMut) -> (empty: bool)
    ensures
        empty == (buffer_bytes(*buffer).len() == 0),
;

/// [`BytesMut::capacity`] is at least the number of readable bytes. How much
/// more depends on what the allocator gave, and is left unsaid.
pub assume_specification[ BytesMut::capacity ](buffer: &BytesMut) -> (capacity: usize)
    ensures
        capacity >= buffer_bytes(*buffer).len(),
;

/// [`BytesMut::split_to`] takes the first `at` bytes off the buffer and leaves
/// the rest. It panics where there are fewer.
pub assume_specification[ BytesMut::split_to ](buffer: &mut BytesMut, at: usize) -> (front: BytesMut)
    requires
        at <= buffer_bytes(*old(buffer)).len(),
    ensures
        buffer_bytes(front) == buffer_bytes(*old(buffer)).take(at as int),
        buffer_bytes(*final(buffer)) == buffer_bytes(*old(buffer)).skip(at as int),
;

/// [`BytesMut::truncate`] keeps the first `len` bytes, and does nothing where
/// there are no more.
pub assume_specification[ BytesMut::truncate ](buffer: &mut BytesMut, len: usize)
    ensures
        buffer_bytes(*final(buffer)) == if len <= buffer_bytes(*old(buffer)).len() {
            buffer_bytes(*old(buffer)).take(len as int)
        } else {
            buffer_bytes(*old(buffer))
        },
;

/// [`BytesMut::reserve`] makes room and keeps the readable bytes. It panics
/// where the room would pass the address space. Bytes that were dropped from the
/// front may still take up room; how much is left unsaid.
pub assume_specification[ BytesMut::reserve ](buffer: &mut BytesMut, additional: usize)
    requires
        buffer_bytes(*old(buffer)).len() + additional <= isize::MAX,
    ensures
        buffer_bytes(*final(buffer)) == buffer_bytes(*old(buffer)),
;

/// [`BytesMut::extend_from_slice`] appends bytes. It panics where the room for
/// them would pass the address space. Bytes that were dropped from the front may
/// still take up room; how much is left unsaid.
pub assume_specification[ BytesMut::extend_from_slice ](buffer: &mut BytesMut, extend: &[u8])
    requires
        buffer_bytes(*old(buffer)).len() + extend@.len() <= isize::MAX,
    ensures
        buffer_bytes(*final(buffer)) == buffer_bytes(*old(buffer)) + extend@,
;

/// [`Buf::advance`] on a buffer drops its first `count` bytes. It panics where
/// there are fewer.
#[verifier::external_body]
pub(crate) fn advance(buffer: &mut BytesMut, count: usize)
    requires
        count <= buffer_bytes(*old(buffer)).len(),
    ensures
        buffer_bytes(*final(buffer)) == buffer_bytes(*old(buffer)).skip(count as int),
{
    buffer.advance(count);
}

/// `BytesMut::as_ref` lends the readable bytes.
#[verifier::external_body]
pub(crate) fn readable(buffer: &BytesMut) -> (bytes: &[u8])
    ensures
        bytes@ == buffer_bytes(*buffer),
{
    buffer.as_ref()
}

/// `Bytes::as_ref` lends the bytes of a chunk.
#[verifier::external_body]
pub(crate) fn chunk_slice(chunk: &Bytes) -> (bytes: &[u8])
    ensures
        bytes@ == chunk_bytes(*chunk),
{
    chunk.as_ref()
}

/// [`Bytes::len`] counts the bytes of a chunk.
pub assume_specification[ Bytes::len ](chunk: &Bytes) -> (len: usize)
    ensures
        len == chunk_bytes(*chunk).len(),
;

/// `Bytes::from` takes over the bytes of a text.
#[verifier::external_body]
pub(crate) fn text_chunk(text: String) -> (chunk: Bytes)
    ensures
        chunk_bytes(chunk) == encode_utf8(text@),
{
    Bytes::from(text)
}

} // verus!
