use vstd::prelude::*;

use super::CompressionError;
use crate::text::{utf8_chars, utf8_string};
use vstd::slice::slice_to_vec;

verus! {

/// Reads a stored payload as UTF-8 text.
pub fn decompress(data: &[u8]) -> (r: Result<String, CompressionError>)
    ensures
        r matches Ok(s) ==> utf8_chars(data@) == Some(s@),
        r matches Err(e) ==> utf8_chars(data@) is None && e.0 == super::CompressionAlgorithm::Unknown,
{
    match utf8_string(slice_to_vec(data)) {
        Some(s) => Ok(s),
        None => Err(CompressionError::non_utf8()),
    }
}

} // verus!
