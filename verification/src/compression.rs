//! Whole-frame compression with LZ4.

use vstd::prelude::*;

verus! {

/// The LZ4 frame that the encoder of the `lz4` crate emits for `data` at compression
/// level `level`.
pub uninterp spec fn lz4_frame(data: Seq<u8>, level: u32) -> Seq<u8>;

/// What the decoder of the `lz4` crate reads out of `data`, if it accepts it.
pub uninterp spec fn lz4_unframe(data: Seq<u8>) -> Option<Seq<u8>>;

/// The level at which frames are compressed.
pub const COMPRESSION_LEVEL: u32 = 4;

/// The four bytes that open every LZ4 frame: the format's magic number, least significant
/// byte first.
pub open spec fn lz4_magic() -> Seq<u8> {
    seq![0x04u8, 0x22u8, 0x4du8, 0x18u8]
}

/// Runs `lz4::EncoderBuilder` at the given level over a fresh `Vec`, writes `data` through
/// the `lz4::Encoder` and finishes it. The result is the frame named by `lz4_frame`. It
/// opens with the format's magic number, and the crate's decoder turns it into `data`
/// again. The encoder reports an error only when its context cannot be allocated; on a
/// `Vec` no write fails.
#[verifier::external_body]
fn encode_frame(data: &[u8], level: u32) -> (out: Vec<u8>)
    ensures
        out@ == lz4_frame(data@, level),
        out@.len() >= 4,
        out@.subrange(0, 4) == lz4_magic(),
        lz4_unframe(out@) == Some(data@),
{
    let mut encoder = lz4::EncoderBuilder::new().level(level).build(Vec::new()).unwrap();
    std::io::Write::write_all(&mut encoder, data).expect("Failed to write");
    let (compressed, result) = encoder.finish();
    result.expect("Failed to compress");
    compressed
}

/// Compresses `data` into one LZ4 frame.
pub fn compress(data: &[u8]) -> (out: Vec<u8>)
    ensures
        out@ == lz4_frame(data@, COMPRESSION_LEVEL),
        out@.len() >= 4,
        out@.subrange(0, 4) == lz4_magic(),
        lz4_unframe(out@) == Some(data@),
{
    encode_frame(data, COMPRESSION_LEVEL)
}

/// Reads `data` to its end through `lz4::Decoder`. The result is what `lz4_unframe` names:
/// the decoded bytes, or nothing where the decoder reports an error.
#[verifier::external_body]
pub fn decompress(data: &[u8]) -> (out: Option<Vec<u8>>)
    ensures
        match out {
            Some(plain) => lz4_unframe(data@) == Some(plain@),
            None => lz4_unframe(data@) is None,
        },
{
    let mut decoder = match lz4::Decoder::new(data) {
        Ok(decoder) => decoder,
        Err(_) => return None,
    };
    let mut plain = Vec::new();
    match std::io::Read::read_to_end(&mut decoder, &mut plain) {
        Ok(_) => Some(plain),
        Err(_) => None,
    }
}

} // verus!
