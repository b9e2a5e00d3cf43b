//! The embedded-compressed-file sections hold a gzip stream; inflating it
//! is delegated to the `flate2` crate behind one wrapper.
use crate::XdbfError;
use std::io::Read;
use vstd::prelude::*;

verus! {

/// What inflating a gzip stream yields: `Some` of the decompressed bytes
/// when the stream is well formed, `None` otherwise. Decompression is a
/// function of the input bytes alone.
pub uninterp spec fn gunzip_of(b: Seq<u8>) -> Option<Seq<u8>>;

/// Relies on `flate2::read::GzDecoder` together with
/// `std::io::Read::read_to_end`: inflating a byte buffer is deterministic
/// in the buffer's contents, and fails exactly on a malformed stream.
#[verifier::external_body]
pub(crate) fn gunzip(b: &[u8]) -> (r: Result<Vec<u8>, XdbfError>)
    ensures
        r is Ok <==> gunzip_of(b@) is Some,
        r matches Ok(v) ==> gunzip_of(b@) == Some(v@),
        r matches Err(e) ==> e == XdbfError::DecompressionError,
{
    let mut out = Vec::new();
    match flate2::read::GzDecoder::new(b).read_to_end(&mut out) {
        Ok(_) => Ok(out),
        Err(_) => Err(XdbfError::DecompressionError),
    }
}

} // verus!
