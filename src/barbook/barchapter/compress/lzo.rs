use vstd::prelude::*;
use vstd::slice::slice_subrange;

use super::{CompressionAlgorithm, CompressionError};
use crate::binarystruct::{be_bytes, be_u32};
use crate::text::{utf8_chars, utf8_string};
use super::lzo_stream::{lzo_stream_check, lzo_stream_ok};

verus! {

/// The largest decompressed size that a frame may announce: 100 KiB.
pub const MAX_SIZE: u32 = 102400;

/// The byte that opens every frame.
pub const FIRST_BYTE: u8 = 241;

#[verifier::external_type_specification]
#[verifier::external_body]
pub struct ExLzoError(lzokay_native::Error);

/// The LZO1X stream that lzokay-native writes for `data`; none where it reports a
/// failure.
pub uninterp spec fn lzo_compressed(data: Seq<u8>) -> Option<Seq<u8>>;

/// The bytes that lzokay-native decodes out of the LZO1X stream `data`, if it is one.
pub uninterp spec fn lzo_decompressed(data: Seq<u8>) -> Option<Seq<u8>>;

/// Relies on `lzokay_native::compress`: its output, or its failure, depends on the
/// input bytes alone.
#[verifier::external_body]
fn lzo1x_encode(data: &[u8]) -> (r: Result<Vec<u8>, lzokay_native::Error>)
    ensures
        r is Ok <==> lzo_compressed(data@) is Some,
        r matches Ok(v) ==> lzo_compressed(data@) == Some(v@),
{
    lzokay_native::compress(data)
}

/// Relies on `lzokay_native::decompress_all`: the expected size only reserves
/// room, so the result depends on the input bytes alone. The decoder follows
/// back-references without bounds checks and allocates literal runs before
/// reading them; the precondition admits only streams whose walk keeps every
/// read inside the input and every back-reference inside the output so far,
/// which are the streams it decodes without panicking.
#[verifier::external_body]
fn lzo1x_decode(data: &[u8], expected_size: usize) -> (r: Result<Vec<u8>, lzokay_native::Error>)
    requires
        lzo_stream_ok(data@, expected_size as int),
    ensures
        r matches Ok(v) ==> lzo_decompressed(data@) == Some(v@),
        r is Err ==> lzo_decompressed(data@) is None,
{
    lzokay_native::decompress_all(data, Some(expected_size))
}

/// The size that a frame announces: the big-endian `u32` after its first byte.
pub open spec fn frame_size(data: Seq<u8>) -> u32 {
    be_u32(data, 1)
}

/// A frame's header is sound: the first byte is right and the announced size is
/// between 1 and 100 KiB.
pub open spec fn frame_header_ok(data: Seq<u8>) -> bool {
    &&& data.len() >= 5
    &&& data[0] == FIRST_BYTE
    &&& 0 < frame_size(data) <= MAX_SIZE
}

/// The bytes that a frame holds: its payload decoded, where the header is sound,
/// the payload walks safely within the announced size, and it decodes to exactly
/// that size.
pub open spec fn frame_contents(data: Seq<u8>) -> Option<Seq<u8>> {
    if frame_header_ok(data) && lzo_stream_ok(data.subrange(5, data.len() as int), frame_size(data) as int) {
        match lzo_decompressed(data.subrange(5, data.len() as int)) {
            Some(out) => if out.len() == frame_size(data) {
                Some(out)
            } else {
                None
            },
            None => None,
        }
    } else {
        None
    }
}

/// The text that a frame holds.
pub open spec fn frame_text(data: Seq<u8>) -> Option<Seq<char>> {
    match frame_contents(data) {
        Some(out) => utf8_chars(out),
        None => None,
    }
}

/// The frame for `data`: the first byte, the size big-endian, then the stream;
/// none where the encoder fails.
pub open spec fn frame_of(data: Seq<u8>) -> Option<Seq<u8>> {
    match lzo_compressed(data) {
        Some(c) => Some(seq![FIRST_BYTE] + be_bytes(data.len() as u32) + c),
        None => None,
    }
}

fn read_u32_be(b: &[u8], i: usize) -> (r: u32)
    requires
        i + 4 <= b@.len(),
    ensures
        r == be_u32(b@, i as int),
{
    let b0 = b[i];
    let b1 = b[i + 1];
    let b2 = b[i + 2];
    let b3 = b[i + 3];
    (b3 as u32) | ((b2 as u32) << 8u32) | ((b1 as u32) << 16u32) | ((b0 as u32) << 24u32)
}

/// Decodes a frame into UTF-8 text. A failure of the frame is tagged LZO; one of
/// UTF-8 names no algorithm.
pub fn decompress(data: &[u8]) -> (r: Result<String, CompressionError>)
    ensures
        r matches Ok(s) ==> frame_text(data@) == Some(s@),
        r is Err ==> frame_text(data@) is None,
        r matches Err(e) ==> (e.0 == CompressionAlgorithm::Lzo <==> frame_contents(data@) is None),
        data@.len() >= 5 && data@[0] == FIRST_BYTE && (frame_size(data@) == 0 || frame_size(data@)
            > MAX_SIZE) ==> (r matches Err(e) && e.0 == CompressionAlgorithm::Lzo),
{
    if data.len() < 5 {
        return Err(CompressionError(CompressionAlgorithm::Lzo, "Frame shorter than its header".to_owned()));
    }
    let first_byte = data[0];
    if first_byte != FIRST_BYTE {
        return Err(CompressionError(CompressionAlgorithm::Lzo, "Unexpected first byte".to_owned()));
    }
    let decompressed_size = read_u32_be(data, 1);
    if decompressed_size == 0 || decompressed_size > MAX_SIZE {
        return Err(CompressionError(CompressionAlgorithm::Lzo, "Unexpected decompression size".to_owned()));
    }
    let payload = slice_subrange(data, 5, data.len());
    if !lzo_stream_check(payload, decompressed_size as usize) {
        return Err(CompressionError(CompressionAlgorithm::Lzo, "Corrupt LZO stream".to_owned()));
    }
    let decompressed = match lzo1x_decode(payload, decompressed_size as usize) {
        Ok(v) => v,
        Err(_) => {
            return Err(CompressionError(CompressionAlgorithm::Lzo, "Corrupt LZO stream".to_owned()));
        },
    };
    if decompressed.len() != decompressed_size as usize {
        return Err(CompressionError(
            CompressionAlgorithm::Lzo,
            "Decompressed data was not of expected size".to_owned(),
        ));
    }
    match utf8_string(decompressed) {
        Some(s) => Ok(s),
        None => Err(CompressionError::non_utf8()),
    }
}

/// Encodes bytes as a frame; input longer than a `u32` can count is refused.
pub fn compress(data: &[u8]) -> (r: Result<Vec<u8>, CompressionError>)
    ensures
        r matches Ok(v) ==> frame_of(data@) == Some(v@),
        r matches Err(e) ==> e.0 == CompressionAlgorithm::Lzo,
        data@.len() > u32::MAX ==> r is Err,
        data@.len() <= u32::MAX ==> (r is Ok <==> lzo_compressed(data@) is Some),
{
    if data.len() > u32::MAX as usize {
        return Err(CompressionError(CompressionAlgorithm::Lzo, "Input too long for a frame".to_owned()));
    }
    let uncompressed_size: u32 = data.len() as u32;
    let mut compressed = match lzo1x_encode(data) {
        Ok(v) => v,
        Err(_) => {
            return Err(CompressionError(CompressionAlgorithm::Lzo, "Compression failed".to_owned()));
        },
    };
    let mut lzo_data: Vec<u8> = Vec::new();
    lzo_data.push(FIRST_BYTE);
    lzo_data.push(((uncompressed_size >> 24u32) & 0xff) as u8);
    lzo_data.push(((uncompressed_size >> 16u32) & 0xff) as u8);
    lzo_data.push(((uncompressed_size >> 8u32) & 0xff) as u8);
    lzo_data.push((uncompressed_size & 0xff) as u8);
    let ghost head = lzo_data@;
    lzo_data.append(&mut compressed);
    assert(head =~= seq![FIRST_BYTE] + be_bytes(uncompressed_size));
    assert(lzo_data@ =~= frame_of(data@)->Some_0);
    Ok(lzo_data)
}

} // verus!
