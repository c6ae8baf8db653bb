//! The gzip variant of an asset.
use vstd::prelude::*;

verus! {

/// The gzip stream that the encoder produces from `data` at the best compression level.
pub uninterp spec fn gzip_best(data: Seq<u8>) -> Seq<u8>;

/// The bytes that a gzip decoder recovers from `stream`.
pub uninterp spec fn gunzip(stream: Seq<u8>) -> Seq<u8>;

/// Relies on `flate2::write::GzEncoder` at `Compression::best()`, writing into a
/// `Vec<u8>`: the stream depends on the input alone (the default header holds no
/// time stamp, no file name, and the fixed system byte 255), and decoding it
/// gives the input back. Writing into a `Vec<u8>` does not fail, and the deflate
/// stream fails only on a misused stream state, so `write_all` and `finish`
/// return `Ok`.
#[verifier::external_body]
pub(crate) fn gzip_compress(data: &[u8]) -> (r: Vec<u8>)
    ensures
        r@ == gzip_best(data@),
        gunzip(r@) == data@,
{
    let mut z = flate2::write::GzEncoder::new(Vec::new(), flate2::Compression::best());
    std::io::Write::write_all(&mut z, data).expect("writing into a Vec<u8> does not fail");
    z.finish().expect("writing into a Vec<u8> does not fail")
}

} // verus!
