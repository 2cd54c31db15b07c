//! Gzip in memory. The backups that the patch engine keeps are gzip streams;
//! compressing and decompressing is done by `flate2`, on byte vectors.

use std::io::Read;
use std::io::Write;
use vstd::prelude::*;

verus! {

/// The gzip stream that the encoder produces for `data`, at the default
/// compression level and with an empty header; `None` if the encoder reports
/// an error.
pub uninterp spec fn gzip_of(data: Seq<u8>) -> Option<Seq<u8>>;

/// What the decoder produces from `data`, read as one gzip member: the bytes
/// that came out, and whether the member was decoded to its end without an
/// error.
pub uninterp spec fn gunzip_of(data: Seq<u8>) -> (Seq<u8>, bool);

/// The view of an optional byte vector.
pub open spec fn opt_bytes(o: Option<Vec<u8>>) -> Option<Seq<u8>> {
    match o {
        Some(v) => Some(v@),
        None => None,
    }
}

/// Calls `flate2::write::GzEncoder` (`new`, `write_all`, `finish`) on an
/// in-memory sink. Trusted: the result is the encoder's output for `data`,
/// and decoding that output with `flate2::read::GzDecoder` gives `data` back
/// whole.
#[verifier::external_body]
fn gzip_encode(data: &[u8]) -> (out: Option<Vec<u8>>)
    ensures
        opt_bytes(out) == gzip_of(data@),
        out matches Some(z) ==> gunzip_of(z@) == (data@, true),
{
    let mut encoder = flate2::write::GzEncoder::new(Vec::new(), flate2::Compression::default());
    match encoder.write_all(data) {
        Ok(()) => encoder.finish().ok(),
        Err(_) => None,
    }
}

/// Calls `flate2::read::GzDecoder` (`new`, `read_to_end`) on `data`.
/// Trusted: the pair returned is the decoder's output and whether it ended
/// without an error.
#[verifier::external_body]
fn gzip_decode(data: &[u8]) -> (out: (Vec<u8>, bool))
    ensures
        (out.0@, out.1) == gunzip_of(data@),
{
    let mut decoder = flate2::read::GzDecoder::new(data);
    let mut bytes: Vec<u8> = Vec::new();
    let complete = decoder.read_to_end(&mut bytes).is_ok();
    (bytes, complete)
}

/// Compresses `data` into a gzip stream. What comes out decompresses to
/// `data`.
pub fn gzip_compress(data: &[u8]) -> (out: Option<Vec<u8>>)
    ensures
        opt_bytes(out) == gzip_of(data@),
        out matches Some(z) ==> gunzip_of(z@) == (data@, true),
{
    gzip_encode(data)
}

/// Decompresses one gzip member. `Some` holds the content if the stream was
/// sound; otherwise `None`.
pub fn gzip_decompress(data: &[u8]) -> (out: Option<Vec<u8>>)
    ensures
        opt_bytes(out) == (if gunzip_of(data@).1 {
            Some(gunzip_of(data@).0)
        } else {
            None
        }),
{
    let (bytes, complete) = gzip_decode(data);
    if complete {
        Some(bytes)
    } else {
        None
    }
}

} // verus!
