//! Byte buffers of the `bytes` crate, as the rest of the library sees them.
//!
//! `BytesMut` and `Bytes` are opaque to Verus. What they hold is given the
//! name [`bytes_mut_contents`] / [`bytes_contents`], and every method that the
//! library calls is reached through one small trusted wrapper whose contract
//! says what the method does to those contents (read off the crate's source).
use vstd::prelude::*;

use bytes::{Buf, BufMut, Bytes, BytesMut};

verus! {

#[verifier::external_type_specification]
#[verifier::external_body]
pub struct ExBytesMut(bytes::BytesMut);

#[verifier::external_type_specification]
#[verifier::external_body]
pub struct ExBytes(bytes::Bytes);

/// The bytes that a `BytesMut` holds, first to last.
pub uninterp spec fn bytes_mut_contents(b: BytesMut) -> Seq<u8>;

/// The bytes that a `Bytes` holds, first to last.
pub uninterp spec fn bytes_contents(b: Bytes) -> Seq<u8>;

/// `BytesMut::with_capacity`: a new, empty buffer.
#[verifier::external_body]
pub(crate) fn bytes_mut_with_capacity(capacity: usize) -> (b: BytesMut)
    ensures
        bytes_mut_contents(b) == Seq::<u8>::empty(),
{
    BytesMut::with_capacity(capacity)
}

/// `BytesMut::new`: a new, empty buffer.
#[verifier::external_body]
pub(crate) fn bytes_mut_new() -> (b: BytesMut)
    ensures
        bytes_mut_contents(b) == Seq::<u8>::empty(),
{
    BytesMut::new()
}

/// `BytesMut::len`: the number of bytes held.
#[verifier::external_body]
pub(crate) fn bytes_mut_len(b: &BytesMut) -> (n: usize)
    ensures
        n == bytes_mut_contents(*b).len(),
{
    b.len()
}

/// `<BytesMut as AsRef<[u8]>>::as_ref`: the held bytes as a slice.
#[verifier::external_body]
pub(crate) fn bytes_mut_as_slice(b: &BytesMut) -> (s: &[u8])
    ensures
        s@ == bytes_mut_contents(*b),
{
    b.as_ref()
}

/// `BytesMut::split_to`: takes off the first `at` bytes and returns them.
/// The method asserts `at <= len`, hence the precondition.
#[verifier::external_body]
pub(crate) fn bytes_mut_split_to(b: &mut BytesMut, at: usize) -> (head: BytesMut)
    requires
        at <= bytes_mut_contents(*old(b)).len(),
    ensures
        bytes_mut_contents(head) == bytes_mut_contents(*old(b)).take(at as int),
        bytes_mut_contents(*final(b)) == bytes_mut_contents(*old(b)).skip(at as int),
{
    b.split_to(at)
}

/// `BytesMut::split_off`: keeps the first `at` bytes and returns the rest.
/// The method asserts `at <= capacity`; the library only calls it with
/// `at <= len`, which the precondition states.
#[verifier::external_body]
pub(crate) fn bytes_mut_split_off(b: &mut BytesMut, at: usize) -> (tail: BytesMut)
    requires
        at <= bytes_mut_contents(*old(b)).len(),
    ensures
        bytes_mut_contents(tail) == bytes_mut_contents(*old(b)).skip(at as int),
        bytes_mut_contents(*final(b)) == bytes_mut_contents(*old(b)).take(at as int),
{
    b.split_off(at)
}

/// `<BytesMut as Buf>::advance`: drops the first `cnt` bytes.
/// The method asserts `cnt <= remaining`, hence the precondition.
#[verifier::external_body]
pub(crate) fn bytes_mut_advance(b: &mut BytesMut, cnt: usize)
    requires
        cnt <= bytes_mut_contents(*old(b)).len(),
    ensures
        bytes_mut_contents(*final(b)) == bytes_mut_contents(*old(b)).skip(cnt as int),
{
    b.advance(cnt)
}

/// `BytesMut::extend_from_slice`: appends the bytes of `s`.
#[verifier::external_body]
pub(crate) fn bytes_mut_extend(b: &mut BytesMut, s: &[u8])
    ensures
        bytes_mut_contents(*final(b)) == bytes_mut_contents(*old(b)) + s@,
{
    b.extend_from_slice(s)
}

/// `<BytesMut as BufMut>::put`: appends all the bytes of `src`.
#[verifier::external_body]
pub(crate) fn bytes_mut_put(b: &mut BytesMut, src: BytesMut)
    ensures
        bytes_mut_contents(*final(b)) == bytes_mut_contents(*old(b)) + bytes_mut_contents(src),
{
    b.put(src)
}

/// `<BytesMut as Buf>::copy_to_slice` into the first `n` bytes of `dst`:
/// moves the first `n` held bytes there. The method panics when fewer bytes
/// remain, and the slicing when `dst` is shorter, hence the precondition.
#[verifier::external_body]
pub(crate) fn bytes_mut_copy_to_slice(b: &mut BytesMut, dst: &mut [u8], n: usize)
    requires
        n <= old(dst)@.len(),
        n <= bytes_mut_contents(*old(b)).len(),
    ensures
        final(dst)@ == bytes_mut_contents(*old(b)).take(n as int) + old(dst)@.skip(n as int),
        bytes_mut_contents(*final(b)) == bytes_mut_contents(*old(b)).skip(n as int),
{
    b.copy_to_slice(&mut dst[..n])
}

/// `BytesMut::freeze`: the same bytes as an immutable `Bytes`.
#[verifier::external_body]
pub(crate) fn bytes_mut_freeze(b: BytesMut) -> (r: Bytes)
    ensures
        bytes_contents(r) == bytes_mut_contents(b),
{
    b.freeze()
}

} // verus!
