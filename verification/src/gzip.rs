//! Compression.
use vstd::prelude::*;
use std::io::{Read, Write};

verus! {

/// What flate2 makes of bytes by compression, or what it says where it cannot.
pub uninterp spec fn gzipped(bytes: Seq<u8>) -> Result<Seq<u8>, Seq<char>>;

/// What flate2 makes of compressed bytes, or what it says where it cannot.
pub uninterp spec fn inflated(bytes: Seq<u8>) -> Result<Seq<u8>, Seq<char>>;

/// Whether a result holds the given bytes or the given text.
pub open spec fn yields(r: Result<Vec<u8>, String>, v: Result<Seq<u8>, Seq<char>>) -> bool {
    match (r, v) {
        (Ok(a), Ok(b)) => a@ == b,
        (Err(a), Err(b)) => a@ == b,
        _ => false,
    }
}

/// Whether compressed bytes are those of the given ones.
pub open spec fn inflates_to(compressed: Seq<u8>, bytes: Seq<u8>) -> bool {
    inflated(compressed) is Ok && inflated(compressed)->Ok_0 == bytes
}

/// Compresses bytes, by `flate2::write::GzEncoder` at the default level: the
/// result is a function of the bytes, and gives them back when decompressed.
#[verifier::external_body]
pub(crate) fn gzip(bytes: &[u8]) -> (r: Result<Vec<u8>, String>)
    ensures
        yields(r, gzipped(bytes@)),
        r is Ok ==> inflates_to(r->Ok_0@, bytes@),
{
    let mut encoder = flate2::write::GzEncoder::new(Vec::new(), flate2::Compression::default());
    match encoder.write_all(bytes) {
        Ok(_) => match encoder.finish() {
            Ok(c) => Ok(c),
            Err(e) => Err(e.to_string()),
        },
        Err(e) => Err(e.to_string()),
    }
}

/// Decompresses bytes, by `flate2::read::GzDecoder`: the result is a function of
/// the bytes.
#[verifier::external_body]
pub(crate) fn gunzip(bytes: &[u8]) -> (r: Result<Vec<u8>, String>)
    ensures
        yields(r, inflated(bytes@)),
{
    let mut out: Vec<u8> = Vec::new();
    match flate2::read::GzDecoder::new(bytes).read_to_end(&mut out) {
        Ok(_) => Ok(out),
        Err(e) => Err(e.to_string()),
    }
}

} // verus!
