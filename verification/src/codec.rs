use vstd::prelude::*;
use crate::errors::StoreError;

verus! {

/// The zlib stream that compression produces for a given byte sequence.
pub uninterp spec fn deflate_of(b: Seq<u8>) -> Seq<u8>;

/// The byte sequence that zlib decompression decodes a given input to, or
/// `None` where the decoder rejects the input.
pub uninterp spec fn inflate_of(b: Seq<u8>) -> Option<Seq<u8>>;

/// Relies on deflate::deflate_bytes_zlib: deterministic, lossless zlib
/// compression of the input bytes, whose output inflate::inflate_bytes_zlib
/// decodes back to the input exactly.
#[verifier::external_body]
fn deflate_bytes(data: &[u8]) -> (r: Vec<u8>)
    ensures
        r@ == deflate_of(data@),
        inflate_of(r@) == Some(data@),
{
    deflate::deflate_bytes_zlib(data)
}

/// Relies on inflate::inflate_bytes_zlib: decodes a zlib stream, a
/// deterministic function of the input bytes alone; in particular it
/// decodes the output of deflate::deflate_bytes_zlib back to the original.
#[verifier::external_body]
fn inflate_bytes(data: &[u8]) -> (r: Result<Vec<u8>, String>)
    ensures
        match r {
            Ok(v) => inflate_of(data@) == Some(v@),
            Err(_) => inflate_of(data@) is None,
        },
{
    inflate::inflate_bytes_zlib(data)
}

/// Compress a raw payload before it is stored. Every write path goes
/// through this: the store never persists raw bytes.
pub fn compress(data: &[u8]) -> (r: Vec<u8>)
    ensures
        r@ == deflate_of(data@),
        inflate_of(r@) == Some(data@),
{
    deflate_bytes(data)
}

/// Decompress a stored payload. A payload the decoder rejects is a
/// data-integrity error, never silently returned as-is.
pub fn decompress(data: &[u8]) -> (r: Result<Vec<u8>, StoreError>)
    ensures
        match r {
            Ok(v) => inflate_of(data@) == Some(v@),
            Err(e) => inflate_of(data@) is None && e == StoreError::CodecFailure,
        },
{
    match inflate_bytes(data) {
        Ok(v) => Ok(v),
        Err(_) => Err(StoreError::CodecFailure),
    }
}

} // verus!
