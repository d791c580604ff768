//! The deflate-family compression stage, applied to frame payloads only:
//! length prefixes are never compressed.

use std::io::Read;
use vstd::prelude::*;

verus! {

/// The zlib stream that deflating a byte sequence at the default level
/// produces: a value depending on the input bytes alone.
pub uninterp spec fn zlib_deflated(data: Seq<u8>) -> Seq<u8>;

/// What inflating a byte sequence yields: the decompressed bytes, or `None`
/// when the input is not a well-formed zlib stream. A value depending on the
/// input bytes alone.
pub uninterp spec fn zlib_inflated(data: Seq<u8>) -> Option<Seq<u8>>;

/// Relies on `flate2::bufread::ZlibEncoder`: deflate-compresses the bytes at
/// the default level; the result depends on the input alone. Reading from an
/// in-memory slice into a growable buffer cannot fail, so the call always
/// returns.
#[verifier::external_body]
pub(crate) fn zlib_compress(data: &[u8]) -> (r: Vec<u8>)
    ensures
        r@ == zlib_deflated(data@),
{
    let mut encoder = flate2::bufread::ZlibEncoder::new(data, flate2::Compression::default());
    let mut out = Vec::new();
    encoder.read_to_end(&mut out).expect("deflating an in-memory slice cannot fail");
    out
}

/// Relies on `flate2::bufread::ZlibDecoder`: inflates a zlib stream, or
/// reports failure on a malformed one; the outcome depends on the input
/// alone.
#[verifier::external_body]
pub(crate) fn zlib_decompress(data: &[u8]) -> (r: Option<Vec<u8>>)
    ensures
        match r {
            Some(v) => zlib_inflated(data@) == Some(v@),
            None => zlib_inflated(data@) is None,
        },
{
    let mut decoder = flate2::bufread::ZlibDecoder::new(data);
    let mut out = Vec::new();
    match decoder.read_to_end(&mut out) {
        Ok(_) => Some(out),
        Err(_) => None,
    }
}

} // verus!
