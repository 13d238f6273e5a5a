//! The receive and transmit buffers are `bytes::BytesMut` values; these are
//! the operations on them that the codec relies on.
use vstd::prelude::*;

use bytes::BytesMut;

verus! {

/// `bytes::BytesMut`, whose contents Verus sees only through `buffer_bytes`.
#[verifier::external_type_specification]
#[verifier::external_body]
pub struct ExBytesMut(BytesMut);

/// The bytes a buffer holds, first to last.
pub uninterp spec fn buffer_bytes(b: BytesMut) -> Seq<u8>;

/// Relies on `BytesMut`'s `AsRef<[u8]>`: a slice of exactly the bytes held.
#[verifier::external_body]
pub(crate) fn buffer_view(b: &BytesMut) -> (r: &[u8])
    ensures
        r@ == buffer_bytes(*b),
{
    b.as_ref()
}

/// Relies on `BytesMut::split_to`: afterwards the buffer holds the bytes
/// from `at` on and the returned buffer the first `at` bytes. It panics only
/// when `at` exceeds the length.
#[verifier::external_body]
pub(crate) fn buffer_split_to(b: &mut BytesMut, at: usize) -> (r: BytesMut)
    requires
        at <= buffer_bytes(*old(b)).len(),
    ensures
        buffer_bytes(r) == buffer_bytes(*old(b)).take(at as int),
        buffer_bytes(*final(b)) == buffer_bytes(*old(b)).skip(at as int),
{
    b.split_to(at)
}

/// Relies on `BytesMut::extend_from_slice`: appends `bytes` after the bytes
/// held, growing the buffer as needed.
#[verifier::external_body]
pub(crate) fn buffer_extend(b: &mut BytesMut, bytes: &[u8])
    ensures
        buffer_bytes(*final(b)) == buffer_bytes(*old(b)) + bytes@,
{
    b.extend_from_slice(bytes)
}

} // verus!
