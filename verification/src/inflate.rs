//! Decompression of the concatenated image data, which is left to `flate2`.

use flate2::read::ZlibDecoder;
use std::io::Read;
use vstd::prelude::*;

verus! {

/// What `flate2` makes of `compressed`, read as a zlib stream: the
/// decompressed bytes, or `None` where it reports an error. Decompression is
/// not modelled here; this only names its result, which depends on the
/// bytes alone.
pub uninterp spec fn zlib_inflated(compressed: Seq<u8>) -> Option<Seq<u8>>;

/// Decompresses a zlib stream with `flate2::read::ZlibDecoder`, read to its
/// end by `std::io::Read::read_to_end`.
///
/// Trusted, not proved: the result is what [`zlib_inflated`] names for these
/// bytes, the decompressed data where the decoder succeeds and `None` where
/// it reports an error.
#[verifier::external_body]
pub(crate) fn inflate(compressed: &[u8]) -> (out: Option<Vec<u8>>)
    ensures
        match out {
            Some(raw) => zlib_inflated(compressed@) == Some(raw@),
            None => zlib_inflated(compressed@) is None,
        },
{
    let mut decoder = ZlibDecoder::new(compressed);
    let mut raw: Vec<u8> = Vec::new();
    match decoder.read_to_end(&mut raw) {
        Ok(_) => Some(raw),
        Err(_) => None,
    }
}

} // verus!
