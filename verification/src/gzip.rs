//! Gzip compression of echo payloads, through flate2.
//!
//! The compressed stream is opaque to the contracts: `gzip_of` names the
//! bytes that flate2 produces for a given input, and every caller's
//! contract speaks of that name.  The response carries those bytes raw;
//! any textual re-encoding of them would show up as a contract violation
//! in the response builder.

use vstd::prelude::*;

verus! {

/// The gzip member (header, deflate stream, CRC trailer) that flate2
/// produces for `s` at its "fast" compression level.
pub uninterp spec fn gzip_of(s: Seq<u8>) -> Seq<u8>;

/// Relies on flate2's `GzEncoder::new` with a `Vec<u8>` sink,
/// `Write::write_all`, and `GzEncoder::finish`: the output depends on the
/// input bytes and the fixed compression level alone (the emitted header
/// has a zero timestamp and the fixed operating-system byte 255), and
/// writes into a `Vec` sink never return an error.
#[verifier::external_body]
pub(crate) fn gzip_compress(data: &[u8]) -> (r: Vec<u8>)
    ensures
        r@ == gzip_of(data@),
{
    let mut encoder = flate2::write::GzEncoder::new(Vec::new(), flate2::Compression::fast());
    std::io::Write::write_all(&mut encoder, data).unwrap();
    encoder.finish().unwrap()
}

} // verus!
