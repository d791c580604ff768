//! The inbound accumulation buffer: a growable byte arena from the `bytes`
//! crate with an O(1) consume-from-the-front operation, declared here with
//! the contracts the framing layer relies on.

use vstd::prelude::*;

verus! {

#[verifier::external_type_specification]
#[verifier::external_body]
pub struct ExBytesMut(bytes::BytesMut);

/// What a `bytes::BytesMut` holds.
pub uninterp spec fn bytes_view(b: bytes::BytesMut) -> Seq<u8>;

/// Relies on `BytesMut::new`: a freshly created buffer holds nothing.
#[verifier::external_body]
pub(crate) fn bm_new() -> (r: bytes::BytesMut)
    ensures
        bytes_view(r) == Seq::<u8>::empty(),
{
    bytes::BytesMut::new()
}

/// Relies on `BytesMut::len`: the number of bytes the buffer holds.
#[verifier::external_body]
pub(crate) fn bm_len(b: &bytes::BytesMut) -> (r: usize)
    ensures
        r == bytes_view(*b).len(),
{
    b.len()
}

/// Relies on `BytesMut`'s `Deref` to `[u8]`: a view of exactly the bytes the
/// buffer holds.
#[verifier::external_body]
pub(crate) fn bm_as_slice(b: &bytes::BytesMut) -> (r: &[u8])
    ensures
        r@ == bytes_view(*b),
{
    &b[..]
}

/// Relies on `BytesMut::extend_from_slice`: appends the given bytes after the
/// buffer's current contents.
#[verifier::external_body]
pub(crate) fn bm_extend(b: &mut bytes::BytesMut, data: &[u8])
    ensures
        bytes_view(*final(b)) == bytes_view(*old(b)) + data@,
{
    b.extend_from_slice(data);
}

/// Relies on `BytesMut::split_off`: afterwards the buffer holds the bytes
/// before `at` and the returned buffer holds the bytes from `at` on. Panics
/// above the buffer's capacity, so callers stay within its length.
#[verifier::external_body]
pub(crate) fn bm_split_off(b: &mut bytes::BytesMut, at: usize) -> (r: bytes::BytesMut)
    requires
        at <= bytes_view(*old(b)).len(),
    ensures
        bytes_view(*final(b)) == bytes_view(*old(b)).take(at as int),
        bytes_view(r) == bytes_view(*old(b)).skip(at as int),
{
    b.split_off(at)
}

} // verus!
