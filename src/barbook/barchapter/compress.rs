use vstd::prelude::*;

use super::CompressionAlgorithm;
use crate::binarystruct::{be_u32, le_bytes, lemma_le_u32_of_le_bytes};
use crate::error::BARFileError;
use crate::text::utf8_chars;
use gzip::{gzip_compressed, gzip_decompressed, gzip_text};
use lzo::{frame_of, frame_text, lzo_compressed, lzo_decompressed, MAX_SIZE};
use lzo_stream::lzo_stream_ok;
use vstd::utf8::*;
use zlib::{zlib_compressed, zlib_decompressed, zlib_text};

pub mod gzip;
pub mod lzo;
pub mod lzo_stream;
pub mod none;
pub mod zlib;

verus! {

/// A payload that its algorithm could not encode or decode.
#[derive(Debug, Clone)]
pub struct CompressionError(pub CompressionAlgorithm, pub String);

impl CompressionError {
    /// The message, led by the algorithm's name.
    pub fn message(&self) -> (r: String)
        ensures
            r@ == self.0.spec_name() + " compression error: "@ + self.1@,
    {
        let mut r = self.0.to_string();
        r.append(" compression error: ");
        r.append(self.1.as_str());
        r
    }

    /// A failure to read decoded bytes as UTF-8, which names no algorithm.
    pub fn non_utf8() -> (r: Self)
        ensures
            r.0 == CompressionAlgorithm::Unknown,
    {
        CompressionError(
            CompressionAlgorithm::Unknown,
            "Non UTF8 character sequence when decoding String".to_owned(),
        )
    }
}

impl From<CompressionError> for BARFileError {
    fn from(value: CompressionError) -> (r: BARFileError) {
        BARFileError::CompressionError(value.message())
    }
}

impl vstd::std_specs::convert::FromSpecImpl<CompressionError> for BARFileError {
    open spec fn obeys_from_spec() -> bool {
        false
    }

    open spec fn from_spec(v: CompressionError) -> BARFileError {
        arbitrary()
    }
}

/// Converts a codec failure into the archive's error.
pub fn file_error(e: CompressionError) -> (r: BARFileError)
    ensures
        r is CompressionError,
{
    BARFileError::CompressionError(e.message())
}

/// Text stored without compression reads back unchanged.
pub proof fn lemma_stored_round_trip(t: Seq<char>)
    ensures
        utf8_chars(encode_utf8(t)) == Some(t),
{
    encode_utf8_valid_utf8(t);
    encode_utf8_decode_utf8(t);
}

/// The size that a frame announces is the length that went in.
pub proof fn lemma_frame_size(b: Seq<u8>)
    requires
        b.len() <= u32::MAX,
        frame_of(b) is Some,
    ensures
        be_u32(frame_of(b)->Some_0, 1) == b.len(),
{
    let f = frame_of(b)->Some_0;
    let v = b.len() as u32;
    lemma_le_u32_of_le_bytes(v);
    let l = le_bytes(v);
    assert(f[1] == l[3] && f[2] == l[2] && f[3] == l[1] && f[4] == l[0]);
    assert(seq![f[4], f[3], f[2], f[1]] =~= l);
}

/// The LZO frame adds nothing that reading takes away: text of 1 byte up to
/// 100 KiB that is framed and read back is unchanged, wherever the LZO1X encoder
/// succeeds and its stream walks safely and decodes to what it compressed.
pub proof fn lemma_lzo_round_trip(t: Seq<char>)
    requires
        0 < encode_utf8(t).len() <= MAX_SIZE,
        lzo_compressed(encode_utf8(t)) is Some,
        lzo_stream_ok(lzo_compressed(encode_utf8(t))->Some_0, encode_utf8(t).len() as int),
        lzo_decompressed(lzo_compressed(encode_utf8(t))->Some_0) == Some(encode_utf8(t)),
    ensures
        frame_text(frame_of(encode_utf8(t))->Some_0) == Some(t),
{
    let b = encode_utf8(t);
    let f = frame_of(b)->Some_0;
    lemma_frame_size(b);
    assert(f.subrange(5, f.len() as int) =~= lzo_compressed(b)->Some_0);
    lemma_stored_round_trip(t);
}

/// zlib adds nothing that reading takes away, wherever the codec gives back what
/// it compressed.
pub proof fn lemma_zlib_round_trip(t: Seq<char>)
    requires
        zlib_compressed(encode_utf8(t)) is Some,
        zlib_decompressed(zlib_compressed(encode_utf8(t))->Some_0) == Some(encode_utf8(t)),
    ensures
        zlib_text(zlib_compressed(encode_utf8(t))->Some_0) == Some(t),
{
    lemma_stored_round_trip(t);
}

/// gzip adds nothing that reading takes away, wherever the codec gives back what
/// it compressed.
pub proof fn lemma_gzip_round_trip(t: Seq<char>)
    requires
        gzip_compressed(encode_utf8(t)) is Some,
        gzip_decompressed(gzip_compressed(encode_utf8(t))->Some_0) == Some(encode_utf8(t)),
    ensures
        gzip_text(gzip_compressed(encode_utf8(t))->Some_0) == Some(t),
{
    lemma_stored_round_trip(t);
}

} // verus!
