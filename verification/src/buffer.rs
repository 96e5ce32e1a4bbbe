//! The byte buffers of the `bytes` crate, as this library uses them: a
//! growable `BytesMut` that big-endian integers are written to, split and read
//! back from, and `&[u8]` read through the `Buf` trait.

use bytes::{Buf, BufMut, BytesMut, TryGetError};
use vstd::prelude::*;

verus! {

/// The eight bytes of `x`, most significant first (`u64::to_be_bytes`).
pub open spec fn u64_be_bytes(x: u64) -> Seq<u8> {
    seq![
        (x >> 56u64) as u8,
        (x >> 48u64) as u8,
        (x >> 40u64) as u8,
        (x >> 32u64) as u8,
        (x >> 24u64) as u8,
        (x >> 16u64) as u8,
        (x >> 8u64) as u8,
        x as u8,
    ]
}

/// The `u16` whose big-endian bytes are `s[0], s[1]` (`u16::from_be_bytes`).
pub open spec fn be_u16(s: Seq<u8>) -> u16 {
    ((s[0] as u16) << 8u16) | (s[1] as u16)
}

/// The `u32` whose big-endian bytes are `s[0..4]` (`u32::from_be_bytes`).
pub open spec fn be_u32(s: Seq<u8>) -> u32 {
    ((s[0] as u32) << 24u32) | ((s[1] as u32) << 16u32) | ((s[2] as u32) << 8u32) | (s[3] as u32)
}

/// The `u64` whose big-endian bytes are `s[0..8]` (`u64::from_be_bytes`).
pub open spec fn be_u64(s: Seq<u8>) -> u64 {
    ((s[0] as u64) << 56u64) | ((s[1] as u64) << 48u64) | ((s[2] as u64) << 40u64) | ((s[3] as u64)
        << 32u64) | ((s[4] as u64) << 24u64) | ((s[5] as u64) << 16u64) | ((s[6] as u64) << 8u64)
        | (s[7] as u64)
}

#[verifier::external_type_specification]
#[verifier::external_body]
pub struct ExBytesMut(BytesMut);

#[verifier::external_type_specification]
#[verifier::external_body]
pub struct ExTryGetError(TryGetError);

/// The bytes that a `BytesMut` holds, in order.
pub uninterp spec fn bytes_mut_contents(buf: BytesMut) -> Seq<u8>;

/// `BytesMut::new`: the source documents a buffer of length 0.
#[verifier::external_body]
pub(crate) fn bytes_mut_new() -> (buf: BytesMut)
    ensures
        bytes_mut_contents(buf) == Seq::<u8>::empty(),
{
    BytesMut::new()
}

/// `<BytesMut as BufMut>::put_u64`: appends the big-endian bytes of `n`
/// (`put_slice(&n.to_be_bytes())`, which `BytesMut` implements as
/// `extend_from_slice`; that panics only when the length would pass
/// `isize::MAX`, which `requires` leaves out).
#[verifier::external_body]
pub(crate) fn bytes_mut_put_u64(buf: &mut BytesMut, n: u64)
    requires
        bytes_mut_contents(*old(buf)).len() + 8 <= isize::MAX,
    ensures
        bytes_mut_contents(*final(buf)) == bytes_mut_contents(*old(buf)) + u64_be_bytes(n),
{
    buf.put_u64(n);
}

/// `BytesMut::split_off`: afterwards `buf` holds the bytes before `at` and the
/// result the bytes from `at` on. It panics only for `at` beyond the capacity,
/// which is at least the length that `requires` bounds `at` by.
#[verifier::external_body]
pub(crate) fn bytes_mut_split_off(buf: &mut BytesMut, at: usize) -> (tail: BytesMut)
    requires
        at <= bytes_mut_contents(*old(buf)).len(),
    ensures
        bytes_mut_contents(*final(buf)) == bytes_mut_contents(*old(buf)).take(at as int),
        bytes_mut_contents(tail) == bytes_mut_contents(*old(buf)).skip(at as int),
{
    buf.split_off(at)
}

/// `<BytesMut as Buf>::get_u16`: reads the first two bytes as a big-endian
/// `u16` and advances past them; it panics with fewer than two bytes left,
/// which `requires` leaves out.
#[verifier::external_body]
pub(crate) fn bytes_mut_get_u16(buf: &mut BytesMut) -> (v: u16)
    requires
        bytes_mut_contents(*old(buf)).len() >= 2,
    ensures
        v == be_u16(bytes_mut_contents(*old(buf))),
        bytes_mut_contents(*final(buf)) == bytes_mut_contents(*old(buf)).skip(2),
{
    buf.get_u16()
}

/// `<BytesMut as Buf>::get_u32`: reads the first four bytes as a big-endian
/// `u32` and advances past them; it panics with fewer than four bytes left,
/// which `requires` leaves out.
#[verifier::external_body]
pub(crate) fn bytes_mut_get_u32(buf: &mut BytesMut) -> (v: u32)
    requires
        bytes_mut_contents(*old(buf)).len() >= 4,
    ensures
        v == be_u32(bytes_mut_contents(*old(buf))),
        bytes_mut_contents(*final(buf)) == bytes_mut_contents(*old(buf)).skip(4),
{
    buf.get_u32()
}

/// `<&[u8] as Buf>::try_get_u16` on a cursor over `data`: `Ok` with the first
/// two bytes read big-endian when there are at least two, else `Err`. The
/// advanced cursor is dropped.
#[verifier::external_body]
pub(crate) fn slice_try_get_u16(data: &[u8]) -> (r: Result<u16, TryGetError>)
    ensures
        r is Ok <==> data@.len() >= 2,
        r matches Ok(v) ==> v == be_u16(data@),
{
    let mut cursor = data;
    cursor.try_get_u16()
}

/// `<&[u8] as Buf>::try_get_u32` on a cursor over `data`: `Ok` with the first
/// four bytes read big-endian when there are at least four, else `Err`. The
/// advanced cursor is dropped.
#[verifier::external_body]
pub(crate) fn slice_try_get_u32(data: &[u8]) -> (r: Result<u32, TryGetError>)
    ensures
        r is Ok <==> data@.len() >= 4,
        r matches Ok(v) ==> v == be_u32(data@),
{
    let mut cursor = data;
    cursor.try_get_u32()
}

} // verus!
