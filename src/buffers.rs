//! The byte containers of the `bytes` crate, as the client's accumulation
//! buffer and its outbound frames use them.

use vstd::prelude::*;
use bytes::{Bytes, BytesMut};

verus! {

/// `bytes::BytesMut`, a growable byte buffer; opaque, seen through `buffered`.
#[verifier::external_type_specification]
#[verifier::external_body]
pub struct ExBytesMut(BytesMut);

/// `bytes::Bytes`, an immutable frame; opaque, seen through `frame_bytes`.
#[verifier::external_type_specification]
#[verifier::external_body]
pub struct ExBytes(Bytes);

/// The bytes that a growable buffer holds, in order.
pub uninterp spec fn buffered(b: BytesMut) -> Seq<u8>;

/// The bytes of an immutable frame, in order.
pub uninterp spec fn frame_bytes(b: Bytes) -> Seq<u8>;

/// Relies on `BytesMut::with_capacity`: a new buffer holds no data, whatever its capacity.
pub assume_specification[ BytesMut::with_capacity ](capacity: usize) -> (r: BytesMut)
    ensures
        buffered(r) == Seq::<u8>::empty(),
;

/// Relies on `BytesMut::len`: the number of bytes held.
pub assume_specification[ BytesMut::len ](b: &BytesMut) -> (r: usize)
    ensures
        r == buffered(*b).len(),
;

/// Relies on `BytesMut::clear`: all data is removed.
pub assume_specification[ BytesMut::clear ](b: &mut BytesMut)
    ensures
        buffered(*final(b)) == Seq::<u8>::empty(),
;

/// Relies on `BytesMut::extend_from_slice`: the slice is appended after the
/// data held; it panics when the new length overflows, which `requires` leaves out.
pub assume_specification[ BytesMut::extend_from_slice ](b: &mut BytesMut, extend: &[u8])
    requires
        buffered(*old(b)).len() + extend@.len() <= isize::MAX,
    ensures
        buffered(*final(b)) == buffered(*old(b)) + extend@,
;

/// Relies on `Deref for BytesMut`: the slice of the data held.
pub assume_specification[ <BytesMut as core::ops::Deref>::deref ](b: &BytesMut) -> (r: &[u8])
    ensures
        r@ == buffered(*b),
;

/// Relies on `Bytes::copy_from_slice`: a frame holding a copy of the slice.
pub assume_specification[ Bytes::copy_from_slice ](data: &[u8]) -> (r: Bytes)
    ensures
        frame_bytes(r) == data@,
;

/// Relies on `Deref for Bytes`: the slice of the frame's bytes.
pub assume_specification[ <Bytes as core::ops::Deref>::deref ](b: &Bytes) -> (r: &[u8])
    ensures
        r@ == frame_bytes(*b),
;

} // verus!
