//! Stream-level compression and decompression of whole in-memory byte
//! buffers, through the outside codec. The decoder transparently handles
//! multi-member streams, so output produced member by member decodes as one
//! concatenated stream.

use vstd::prelude::*;

verus! {

/// What decoding a compressed byte stream yields: the decompressed bytes,
/// or nothing when the stream is not well formed. Decoding a stream held
/// wholly in memory depends on its bytes alone.
pub uninterp spec fn inflate_of(b: Seq<u8>) -> Option<Seq<u8>>;

/// Relies on flate2::bufread::MultiGzDecoder: reading it to the end yields
/// the decompressed content of all members of the stream, and fails exactly
/// when the stream is not well formed; on an in-memory buffer the outcome is
/// a function of the bytes alone.
#[verifier::external_body]
pub(crate) fn gzip_decode(b: &Vec<u8>) -> (r: Result<Vec<u8>, ()>)
    ensures
        match r {
            Ok(v) => inflate_of(b@) == Some(v@),
            Err(_) => inflate_of(b@) is None,
        },
{
    let mut d = flate2::bufread::MultiGzDecoder::new(b.as_slice());
    let mut out: Vec<u8> = Vec::new();
    match std::io::Read::read_to_end(&mut d, &mut out) {
        Ok(_) => Ok(out),
        Err(_) => Err(()),
    }
}

/// Relies on flate2::write::GzEncoder writing into an in-memory vector: the
/// finished stream is one complete member that decodes back to exactly the
/// bytes written into it, and neither write nor finish has a failing path
/// there — the encoder's only error sources are the underlying writer (a
/// vector, which never fails) and a corrupt-stream status that compression
/// cannot produce.
#[verifier::external_body]
pub(crate) fn gzip_encode(b: &Vec<u8>) -> (r: Vec<u8>)
    ensures
        inflate_of(r@) == Some(b@),
{
    let mut e = flate2::write::GzEncoder::new(Vec::new(), flate2::Compression::default());
    std::io::Write::write_all(&mut e, b.as_slice()).expect("in-memory gzip write cannot fail");
    e.finish().expect("in-memory gzip finish cannot fail")
}

} // verus!
