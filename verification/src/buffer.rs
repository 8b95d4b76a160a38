//! The byte buffers of the `bytes` crate, as far as the library uses them.
//!
//! Nothing in this file is proved: each item states what the `bytes` crate
//! does, and the rest of the library is verified against these statements.

use bytes::{Buf, Bytes, BytesMut};
use std::ops::Deref;
use vstd::prelude::*;

verus! {

/// `bytes::Bytes`: an immutable, cheaply cloneable run of bytes.
#[verifier::external_type_specification]
#[verifier::external_body]
pub struct ExBytes(Bytes);

/// The bytes that a `Bytes` value holds, in order.
pub uninterp spec fn bytes_contents(b: Bytes) -> Seq<u8>;

/// `Clone` of `Bytes`: the clone shares the storage and holds the same bytes.
pub assume_specification[ <Bytes as Clone>::clone ](b: &Bytes) -> (out: Bytes)
    ensures
        bytes_contents(out) == bytes_contents(*b),
;

/// `Bytes::from(Vec<u8>)`: takes the vector over; the bytes are the
/// vector's elements.
#[verifier::external_body]
pub(crate) fn bytes_from_vec(v: Vec<u8>) -> (out: Bytes)
    ensures
        bytes_contents(out) == v@,
{
    Bytes::from(v)
}

/// `Deref` of `Bytes`: the slice of all the bytes it holds.
#[verifier::external_body]
pub(crate) fn bytes_as_slice(b: &Bytes) -> (out: &[u8])
    ensures
        out@ == bytes_contents(*b),
{
    b.deref()
}

/// `bytes::BytesMut`: a growable run of bytes that gives up its front
/// without copying.
#[verifier::external_type_specification]
#[verifier::external_body]
pub struct ExBytesMut(BytesMut);

/// The bytes that a `BytesMut` value holds, in order.
pub uninterp spec fn buffer_contents(b: BytesMut) -> Seq<u8>;

/// `Deref` of `BytesMut`: the slice of all the bytes it holds.
#[verifier::external_body]
pub(crate) fn buffer_as_slice(b: &BytesMut) -> (out: &[u8])
    ensures
        out@ == buffer_contents(*b),
{
    b.deref()
}

/// `Buf::advance` of `BytesMut`: drops the first `cnt` bytes. It panics
/// where the buffer holds fewer.
#[verifier::external_body]
pub(crate) fn buffer_advance(b: &mut BytesMut, cnt: usize)
    requires
        cnt <= buffer_contents(*old(b)).len(),
    ensures
        buffer_contents(*final(b)) == buffer_contents(*old(b)).skip(cnt as int),
{
    b.advance(cnt)
}

/// `BytesMut::split_to`: hands out the first `at` bytes and keeps the rest.
/// It panics where the buffer holds fewer.
#[verifier::external_body]
pub(crate) fn buffer_split_to(b: &mut BytesMut, at: usize) -> (front: BytesMut)
    requires
        at <= buffer_contents(*old(b)).len(),
    ensures
        buffer_contents(front) == buffer_contents(*old(b)).take(at as int),
        buffer_contents(*final(b)) == buffer_contents(*old(b)).skip(at as int),
{
    b.split_to(at)
}

/// `BytesMut::extend_from_slice`: appends the bytes of `extend`.
#[verifier::external_body]
pub(crate) fn buffer_extend_from_slice(b: &mut BytesMut, extend: &[u8])
    ensures
        buffer_contents(*final(b)) == buffer_contents(*old(b)) + extend@,
{
    b.extend_from_slice(extend)
}

} // verus!
