//! A growable read buffer: bytes are appended at the back as they arrive
//! and taken off the front as they are consumed.
use vstd::prelude::*;

use bytes::{Bytes, BytesMut};

use crate::buf::{
    bytes_contents, bytes_mut_advance, bytes_mut_as_slice, bytes_mut_contents, bytes_mut_extend,
    bytes_mut_freeze, bytes_mut_len, bytes_mut_split_to, bytes_mut_with_capacity,
};

verus! {

/// Read buffer backed by a `BytesMut`.
pub struct ReadBuf {
    bytes: BytesMut,
}

impl ReadBuf {
    /// The bytes that were filled in and not yet consumed.
    pub closed spec fn view(&self) -> Seq<u8> {
        bytes_mut_contents(self.bytes)
    }

    /// Creates an empty buffer that can hold `capacity` bytes before it grows.
    pub fn with_capacity(capacity: usize) -> (r: Self)
        ensures
            r.view() == Seq::<u8>::empty(),
    {
        ReadBuf { bytes: bytes_mut_with_capacity(capacity) }
    }

    /// Appends freshly read bytes at the back of the buffer.
    pub fn filled_from(&mut self, data: &[u8])
        ensures
            final(self).view() == old(self).view() + data@,
    {
        bytes_mut_extend(&mut self.bytes, data);
    }

    /// The unconsumed bytes.
    pub fn chunk(&self) -> (s: &[u8])
        ensures
            s@ == self.view(),
    {
        bytes_mut_as_slice(&self.bytes)
    }

    /// The number of unconsumed bytes.
    pub fn len(&self) -> (n: usize)
        ensures
            n == self.view().len(),
    {
        bytes_mut_len(&self.bytes)
    }

    /// Takes off the first `at` bytes and returns them.
    pub fn split_to(&mut self, at: usize) -> (head: BytesMut)
        requires
            at <= old(self).view().len(),
        ensures
            bytes_mut_contents(head) == old(self).view().take(at as int),
            final(self).view() == old(self).view().skip(at as int),
    {
        bytes_mut_split_to(&mut self.bytes, at)
    }

    /// Drops the first `cnt` bytes.
    pub fn advance(&mut self, cnt: usize)
        requires
            cnt <= old(self).view().len(),
        ensures
            final(self).view() == old(self).view().skip(cnt as int),
    {
        bytes_mut_advance(&mut self.bytes, cnt)
    }

    /// Consumes the buffer, after appending `extra` when one is given.
    pub fn into_bytes_mut(self, extra: Option<&[u8]>) -> (r: BytesMut)
        ensures
            bytes_mut_contents(r) == match extra {
                Some(d) => self.view() + d@,
                None => self.view(),
            },
    {
        let mut this = self;
        if let Some(d) = extra {
            this.filled_from(d);
        }
        this.bytes
    }

    /// Consumes the buffer into an immutable `Bytes`.
    pub fn into_bytes(self, extra: Option<&[u8]>) -> (r: Bytes)
        ensures
            bytes_contents(r) == match extra {
                Some(d) => self.view() + d@,
                None => self.view(),
            },
    {
        bytes_mut_freeze(self.into_bytes_mut(extra))
    }
}

} // verus!
