//! Whole-buffer decompression of payloads.
use vstd::prelude::*;

verus! {

/// What zstd frame decoding yields for a byte string, or `None` when it is not a valid
/// sequence of zstd frames.
pub uninterp spec fn zstd_decode_of(data: Seq<u8>) -> Option<Seq<u8>>;

/// What raw deflate (no zlib wrapper) decoding yields for a byte string, or `None` when
/// it is not a valid deflate stream.
pub uninterp spec fn deflate_decode_of(data: Seq<u8>) -> Option<Seq<u8>>;

/// Relies on zstd::stream::decode_all: it decodes the frames of `data`, or fails with a
/// message; which of the two depends on the bytes alone.
#[verifier::external_body]
pub(crate) fn zstd_decode(data: &[u8]) -> (r: Result<Vec<u8>, String>)
    ensures
        match r {
            Ok(v) => zstd_decode_of(data@) == Some(v@),
            Err(_) => zstd_decode_of(data@) is None,
        },
{
    zstd::stream::decode_all(data).map_err(|e| e.to_string())
}

/// Relies on flate2::read::DeflateDecoder read to its end: it decodes a raw deflate
/// stream, or fails with a message; which of the two depends on the bytes alone.
#[verifier::external_body]
fn deflate_decode(data: &[u8]) -> (r: Result<Vec<u8>, String>)
    ensures
        match r {
            Ok(v) => deflate_decode_of(data@) == Some(v@),
            Err(_) => deflate_decode_of(data@) is None,
        },
{
    let mut out = Vec::new();
    let mut decoder = flate2::read::DeflateDecoder::new(data);
    std::io::Read::read_to_end(&mut decoder, &mut out).map(|_| out).map_err(|e| e.to_string())
}

/// A payload that did not decompress.
#[derive(Debug, Clone, PartialEq, Eq)]
pub enum CompressionError {
    /// The decoder's message.
    IO(String),
}

/// Decompresses a raw deflate stream.
pub fn decompress_deflate(data: &[u8]) -> (r: Result<Vec<u8>, CompressionError>)
    ensures
        match r {
            Ok(v) => deflate_decode_of(data@) == Some(v@),
            Err(_) => deflate_decode_of(data@) is None,
        },
{
    match deflate_decode(data) {
        Ok(v) => Ok(v),
        Err(m) => Err(CompressionError::IO(m)),
    }
}

/// Decompresses zstd frames.
pub fn decompress_zstd(data: &[u8]) -> (r: Result<Vec<u8>, CompressionError>)
    ensures
        match r {
            Ok(v) => zstd_decode_of(data@) == Some(v@),
            Err(_) => zstd_decode_of(data@) is None,
        },
{
    match zstd_decode(data) {
        Ok(v) => Ok(v),
        Err(m) => Err(CompressionError::IO(m)),
    }
}

} // verus!
