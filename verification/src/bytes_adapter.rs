//! The owned byte buffers that bytes fields can be held in: `Vec<u8>` and
//! `bytes::Bytes`, read and written through one interface.
use vstd::prelude::*;

use crate::buf::put_slice;

verus! {

#[verifier::external_type_specification]
#[verifier::external_body]
pub struct ExBytes(::bytes::Bytes);

/// The bytes that a `Bytes` value holds.
pub uninterp spec fn bytes_contents(b: ::bytes::Bytes) -> Seq<u8>;

/// Calls `bytes::Buf::remaining` on a `Bytes`, which is the number of bytes
/// it holds.
#[verifier::external_body]
fn bytes_remaining(b: &::bytes::Bytes) -> (r: usize)
    ensures
        r == bytes_contents(*b).len(),
{
    bytes::Buf::remaining(b)
}

/// Calls `bytes::Buf::copy_to_bytes` on a slice for all of its bytes, which
/// gives a `Bytes` holding a copy of them.
#[verifier::external_body]
fn copy_to_bytes(src: &[u8]) -> (r: ::bytes::Bytes)
    ensures
        bytes_contents(r) == src@,
{
    let mut rest: &[u8] = src;
    bytes::Buf::copy_to_bytes(&mut rest, src.len())
}

/// Calls `bytes::BufMut::put` on a vector with a clone of a `Bytes`, which
/// appends the bytes it holds.
#[verifier::external_body]
fn put_bytes(buf: &mut Vec<u8>, b: &::bytes::Bytes)
    ensures
        final(buf)@ == old(buf)@ + bytes_contents(*b),
{
    bytes::BufMut::put(buf, b.clone())
}

/// An owned buffer of bytes that a bytes field can be held in.
pub trait BytesAdapter: Sized {
    /// The bytes the buffer holds.
    spec fn contents(&self) -> Seq<u8>;

    /// The number of bytes held.
    fn len(&self) -> (r: usize)
        ensures
            r == self.contents().len(),
    ;

    /// Replaces the contents of this buffer with the bytes of `buf`.
    fn replace_with(&mut self, buf: &[u8])
        ensures
            final(self).contents() == buf@,
    ;

    /// Appends the contents of this buffer to `buf`.
    fn append_to(&self, buf: &mut Vec<u8>)
        ensures
            final(buf)@ == old(buf)@ + self.contents(),
    ;

    /// Whether the buffer holds no bytes.
    fn is_empty(&self) -> (r: bool)
        ensures
            r == (self.contents().len() == 0),
    {
        self.len() == 0
    }
}

impl BytesAdapter for Vec<u8> {
    open spec fn contents(&self) -> Seq<u8> {
        self@
    }

    fn len(&self) -> (r: usize) {
        Vec::len(self)
    }

    fn replace_with(&mut self, buf: &[u8]) {
        self.clear();
        put_slice(self, buf);
    }

    fn append_to(&self, buf: &mut Vec<u8>) {
        put_slice(buf, self.as_slice());
    }
}

impl BytesAdapter for ::bytes::Bytes {
    open spec fn contents(&self) -> Seq<u8> {
        bytes_contents(*self)
    }

    fn len(&self) -> (r: usize) {
        bytes_remaining(self)
    }

    fn replace_with(&mut self, buf: &[u8]) {
        *self = copy_to_bytes(buf);
    }

    fn append_to(&self, buf: &mut Vec<u8>) {
        put_bytes(buf, self);
    }
}

} // verus!
