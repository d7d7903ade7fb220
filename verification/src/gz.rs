//! The compression transform both transfer backends share: uploads are
//! gzip-compressed whole, downloads are decompressed whole. Both calls are
//! pure byte-to-byte transforms.

use std::io::Read;
use std::io::Write;
use vstd::prelude::*;

verus! {

/// What flate2's gzip decoder yields for a byte sequence: the inflated
/// bytes, or nothing when the sequence is not a well-formed gzip stream.
/// A function of the bytes alone.
pub uninterp spec fn ungzip_of(bytes: Seq<u8>) -> Option<Seq<u8>>;

/// Relies on flate2::write::GzEncoder and its finish: gzip-compresses the
/// bytes; flate2's decoder gives exactly the original back.
#[verifier::external_body]
pub fn gzip_compress(bytes: &Vec<u8>) -> (r: Vec<u8>)
    ensures
        ungzip_of(r@) == Some(bytes@),
{
    let mut enc = flate2::write::GzEncoder::new(Vec::new(), flate2::Compression::best());
    enc.write_all(bytes).expect("writing to an in-memory buffer");
    enc.finish().expect("finishing an in-memory gzip stream")
}

/// Relies on flate2::read::GzDecoder: inflates a gzip stream read from
/// memory, succeeding or failing on the bytes alone.
#[verifier::external_body]
pub fn gzip_decompress(bytes: &Vec<u8>) -> (r: Result<Vec<u8>, String>)
    ensures
        match r {
            Ok(v) => ungzip_of(bytes@) == Some(v@),
            Err(_) => ungzip_of(bytes@) is None,
        },
{
    let mut dec = flate2::read::GzDecoder::new(&bytes[..]);
    let mut out: Vec<u8> = Vec::new();
    match dec.read_to_end(&mut out) {
        Ok(_) => Ok(out),
        Err(err) => Err(format!("{}", err)),
    }
}

} // verus!
