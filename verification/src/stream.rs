//! Decompression of zlib-encoded content streams.
//!
//! The document layer hands the interpreter one page's content stream as
//! raw bytes; when the document stores it deflate-compressed, it is
//! decompressed here first.

use vstd::prelude::*;
use std::io::Read;
use flate2::read::ZlibDecoder;

verus! {

/// What zlib inflation yields on a byte sequence: the decompressed bytes,
/// or nothing when the input is not a well-formed zlib stream.  The result
/// depends on the input bytes alone.
pub uninterp spec fn inflated(data: Seq<u8>) -> Option<Seq<u8>>;

/// Relies on `flate2::read::ZlibDecoder` driven by
/// `std::io::Read::read_to_end`: decompressing is a pure function of the
/// input bytes, yielding the whole decompressed stream on success and an
/// error when the bytes do not begin with a well-formed zlib stream.
#[verifier::external_body]
fn inflate(data: &[u8]) -> (r: Option<Vec<u8>>)
    ensures
        match r {
            Some(v) => inflated(data@) == Some(v@),
            None => inflated(data@) is None,
        },
{
    let mut decoder = ZlibDecoder::new(data);
    let mut decompressed = Vec::new();
    match decoder.read_to_end(&mut decompressed) {
        Ok(_) => Some(decompressed),
        Err(_) => None,
    }
}

/// Decompress one zlib-compressed content stream, or return nothing when
/// the bytes are not a well-formed zlib stream.
pub fn decompress_stream(data: &[u8]) -> (r: Option<Vec<u8>>)
    ensures
        r is Some <==> inflated(data@) is Some,
        r is Some ==> Some(r->0@) == inflated(data@),
{
    inflate(data)
}

} // verus!
