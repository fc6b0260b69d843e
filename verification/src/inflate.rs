//! Decompression of the image data, which is left to the `flate2` crate.

use flate2::bufread::ZlibDecoder;
use std::io::Read;
use vstd::prelude::*;

verus! {

/// The bytes that a zlib stream decompresses to, or `None` where the stream
/// is corrupt or ends before it is complete. Nothing more is known of it
/// here.
pub uninterp spec fn inflated(compressed: Seq<u8>) -> Option<Seq<u8>>;

/// Decompresses a zlib stream.
///
/// Trusted: the body hands `compressed` to `flate2::bufread::ZlibDecoder::new`
/// and reads the decoder to its end with `std::io::Read::read_to_end`. The
/// contract claims that the outcome depends on the compressed bytes alone:
/// the bytes read where the call returns `Ok`, and a failure where it
/// returns an error.
#[verifier::external_body]
pub(crate) fn inflate(compressed: &[u8]) -> (res: Option<Vec<u8>>)
    ensures
        match res {
            Some(bytes) => inflated(compressed@) == Some(bytes@),
            None => inflated(compressed@) is None,
        },
{
    let mut decoder = ZlibDecoder::new(compressed);
    let mut filtered = Vec::new();
    match decoder.read_to_end(&mut filtered) {
        Ok(_) => Some(filtered),
        Err(_) => None,
    }
}

} // verus!
