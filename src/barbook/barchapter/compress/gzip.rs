use vstd::prelude::*;

use super::{CompressionAlgorithm, CompressionError};
use crate::text::{utf8_chars, utf8_string};
use flate2::read::GzDecoder;
use flate2::write::GzEncoder;
use flate2::Compression;
use std::io::{Read, Write};

verus! {

/// The RFC 1952 stream that flate2 writes for `data` at the default level; none
/// where the encoder reports a failure.
pub uninterp spec fn gzip_compressed(data: Seq<u8>) -> Option<Seq<u8>>;

/// The bytes that flate2 reads out of the RFC 1952 stream `data`, if it is one.
pub uninterp spec fn gzip_decompressed(data: Seq<u8>) -> Option<Seq<u8>>;

/// Relies on flate2's `GzEncoder` at `Compression::default()`: the stream it
/// writes into a `Vec`, or its failure, depends on the input bytes alone.
#[verifier::external_body]
fn gzip_encode(data: &[u8]) -> (r: Result<Vec<u8>, std::io::Error>)
    ensures
        r is Ok <==> gzip_compressed(data@) is Some,
        r matches Ok(v) ==> gzip_compressed(data@) == Some(v@),
{
    let mut encoder = GzEncoder::new(Vec::new(), Compression::default());
    encoder.write_all(data)?;
    encoder.finish()
}

/// Relies on flate2's `GzDecoder`: reading it to the end yields the decoded
/// bytes, or fails, as the input bytes alone decide.
#[verifier::external_body]
fn gzip_decode(data: &[u8]) -> (r: Result<Vec<u8>, std::io::Error>)
    ensures
        r matches Ok(v) ==> gzip_decompressed(data@) == Some(v@),
        r is Err ==> gzip_decompressed(data@) is None,
{
    let mut out: Vec<u8> = Vec::new();
    GzDecoder::new(data).read_to_end(&mut out)?;
    Ok(out)
}

/// The text of a gzip payload.
pub open spec fn gzip_text(data: Seq<u8>) -> Option<Seq<char>> {
    match gzip_decompressed(data) {
        Some(out) => utf8_chars(out),
        None => None,
    }
}

/// Decodes a gzip payload into UTF-8 text.
pub fn decompress(data: &[u8]) -> (r: Result<String, CompressionError>)
    ensures
        r matches Ok(s) ==> gzip_text(data@) == Some(s@),
        r is Err ==> gzip_text(data@) is None,
{
    match gzip_decode(data) {
        Ok(out) => match utf8_string(out) {
            Some(s) => Ok(s),
            None => Err(CompressionError(CompressionAlgorithm::GZip, "Decompression error: stream did not contain valid UTF-8".to_owned())),
        },
        Err(_) => Err(CompressionError(CompressionAlgorithm::GZip, "Decompression error: corrupt deflate stream".to_owned())),
    }
}

/// Encodes bytes as a gzip stream at the default level.
pub fn compress(data: &[u8]) -> (r: Result<Vec<u8>, CompressionError>)
    ensures
        r is Ok <==> gzip_compressed(data@) is Some,
        r matches Ok(v) ==> gzip_compressed(data@) == Some(v@),
        r matches Err(e) ==> e.0 == CompressionAlgorithm::GZip,
{
    match gzip_encode(data) {
        Ok(v) => Ok(v),
        Err(_) => Err(CompressionError(CompressionAlgorithm::GZip, "Compression error".to_owned())),
    }
}

} // verus!
