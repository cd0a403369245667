use vstd::prelude::*;

use super::{CompressionAlgorithm, CompressionError};
use crate::text::{utf8_chars, utf8_string};
use flate2::read::ZlibDecoder;
use flate2::write::ZlibEncoder;
use flate2::Compression;
use std::io::{Read, Write};

verus! {

#[verifier::external_type_specification]
#[verifier::external_body]
pub struct ExIoError(std::io::Error);

/// The RFC 1950 stream that flate2 writes for `data` at the default level; none
/// where the encoder reports a failure.
pub uninterp spec fn zlib_compressed(data: Seq<u8>) -> Option<Seq<u8>>;

/// The bytes that flate2 reads out of the RFC 1950 stream `data`, if it is one.
pub uninterp spec fn zlib_decompressed(data: Seq<u8>) -> Option<Seq<u8>>;

/// Relies on flate2's `ZlibEncoder` at `Compression::default()`: the stream it
/// writes into a `Vec`, or its failure, depends on the input bytes alone.
#[verifier::external_body]
fn zlib_encode(data: &[u8]) -> (r: Result<Vec<u8>, std::io::Error>)
    ensures
        r is Ok <==> zlib_compressed(data@) is Some,
        r matches Ok(v) ==> zlib_compressed(data@) == Some(v@),
{
    let mut encoder = ZlibEncoder::new(Vec::new(), Compression::default());
    encoder.write_all(data)?;
    encoder.finish()
}

/// Relies on flate2's `ZlibDecoder`: reading it to the end yields the decoded
/// bytes, or fails, as the input bytes alone decide.
#[verifier::external_body]
fn zlib_decode(data: &[u8]) -> (r: Result<Vec<u8>, std::io::Error>)
    ensures
        r matches Ok(v) ==> zlib_decompressed(data@) == Some(v@),
        r is Err ==> zlib_decompressed(data@) is None,
{
    let mut out: Vec<u8> = Vec::new();
    ZlibDecoder::new(data).read_to_end(&mut out)?;
    Ok(out)
}

/// The text of a zlib payload.
pub open spec fn zlib_text(data: Seq<u8>) -> Option<Seq<char>> {
    match zlib_decompressed(data) {
        Some(out) => utf8_chars(out),
        None => None,
    }
}

/// Decodes a zlib payload into UTF-8 text.
pub fn decompress(data: &[u8]) -> (r: Result<String, CompressionError>)
    ensures
        r matches Ok(s) ==> zlib_text(data@) == Some(s@),
        r is Err ==> zlib_text(data@) is None,
{
    match zlib_decode(data) {
        Ok(out) => match utf8_string(out) {
            Some(s) => Ok(s),
            None => Err(CompressionError(CompressionAlgorithm::ZLib, "Decompression error: stream did not contain valid UTF-8".to_owned())),
        },
        Err(_) => Err(CompressionError(CompressionAlgorithm::ZLib, "Decompression error: corrupt deflate stream".to_owned())),
    }
}

/// Encodes bytes as a zlib stream at the default level.
pub fn compress(data: &[u8]) -> (r: Result<Vec<u8>, CompressionError>)
    ensures
        r is Ok <==> zlib_compressed(data@) is Some,
        r matches Ok(v) ==> zlib_compressed(data@) == Some(v@),
        r matches Err(e) ==> e.0 == CompressionAlgorithm::ZLib,
{
    match zlib_encode(data) {
        Ok(v) => Ok(v),
        Err(_) => Err(CompressionError(CompressionAlgorithm::ZLib, "Compression error".to_owned())),
    }
}

} // verus!
