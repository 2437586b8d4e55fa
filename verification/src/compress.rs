//! Decompression of the dump's compressed streams, through the outside
//! decompressors. Decompression is a function of the input bytes alone, so
//! each result is given a name that the callers' contracts speak of.
use vstd::prelude::*;

verus! {

/// What bzip2 decompression of a byte stream yields: the decompressed bytes
/// of the single stream that begins at the start of the input, or `None`
/// when the input does not begin with a well-formed stream.
pub uninterp spec fn bunzip_of(b: Seq<u8>) -> Option<Seq<u8>>;

/// What gzip decompression of a byte stream yields, or `None` when the
/// input is not a well-formed gzip stream.
pub uninterp spec fn gunzip_of(b: Seq<u8>) -> Option<Seq<u8>>;

/// Relies on bzip2's `BzDecoder`: it decompresses the single stream that
/// begins at the start of the input, recognizes the logical end of that
/// stream, and ignores any trailing bytes; the result depends on the input
/// bytes alone.
#[verifier::external_body]
pub fn bunzip(b: &[u8]) -> (r: Option<Vec<u8>>)
    ensures
        match r {
            Some(v) => bunzip_of(b@) == Some(v@),
            None => bunzip_of(b@) is None,
        },
{
    let mut d = bzip2::bufread::BzDecoder::new(b);
    let mut out = Vec::new();
    match std::io::Read::read_to_end(&mut d, &mut out) {
        Ok(_) => Some(out),
        Err(_) => None,
    }
}

/// Relies on flate2's `GzDecoder`: it decompresses a gzip stream, and the
/// result depends on the input bytes alone.
#[verifier::external_body]
pub fn gunzip(b: &[u8]) -> (r: Option<Vec<u8>>)
    ensures
        match r {
            Some(v) => gunzip_of(b@) == Some(v@),
            None => gunzip_of(b@) is None,
        },
{
    let mut d = flate2::bufread::GzDecoder::new(b);
    let mut out = Vec::new();
    match std::io::Read::read_to_end(&mut d, &mut out) {
        Ok(_) => Some(out),
        Err(_) => None,
    }
}

} // verus!
