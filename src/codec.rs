//! The two outside services a member depends on: the CRC-32 of the data and the raw
//! LZMA coder of the payload. Each is reached through one small trusted wrapper.

use vstd::prelude::*;
use lzma_rs::decompress::raw::{LzmaDecoder, LzmaParams, LzmaProperties};

verus! {

/// The CRC-32 (ISO-HDLC parameters) of a byte sequence, as the `crc` crate computes it.
pub uninterp spec fn crc32_of(data: Seq<u8>) -> u32;

/// The stream `lzma_rs::lzma_compress` writes for `data` under its default options.
pub uninterp spec fn lzma_stream_of(data: Seq<u8>) -> Seq<u8>;

/// What the raw LZMA decoder gives for `payload` with the properties `lc`, `lp`, `pb`,
/// the given dictionary size and expected unpacked size: `None` where it refuses the
/// payload.
pub uninterp spec fn lzma_raw_decoded(
    payload: Seq<u8>,
    lc: u32,
    lp: u32,
    pb: u32,
    dict_size: u32,
    unpacked_size: u64,
) -> Option<Seq<u8>>;

/// Length of the header `lzma_rs::lzma_compress` puts before its payload: a
/// properties byte, the dictionary size (4 bytes) and the unpacked size (8 bytes).
pub const LZMA_HEADER_SIZE: usize = 13;

/// Relies on `crc::Crc::<u32>::checksum` with `crc::CRC_32_ISO_HDLC`: a function of
/// the bytes alone.
#[verifier::external_body]
pub(crate) fn crc32(data: &[u8]) -> (r: u32)
    ensures
        r == crc32_of(data@),
{
    crc::Crc::<u32>::new(&crc::CRC_32_ISO_HDLC).checksum(data)
}

/// Relies on `lzma_rs::lzma_compress` with default options, reading from a slice and
/// writing into a `Vec`, neither of which fails: the stream is a function of the data
/// and opens with the 13-byte header that `Encoder::from_stream` writes (properties,
/// dictionary size, unpacked size).
#[verifier::external_body]
pub(crate) fn lzma_compress(data: &[u8]) -> (r: Option<Vec<u8>>)
    ensures
        r is Some,
        r matches Some(s) ==> s@ == lzma_stream_of(data@) && s@.len() >= LZMA_HEADER_SIZE,
{
    let mut out: Vec<u8> = Vec::new();
    let mut input: &[u8] = data;
    match lzma_rs::lzma_compress(&mut input, &mut out) {
        Ok(()) => Some(out),
        Err(_) => None,
    }
}

/// Relies on `lzma_rs::decompress::raw::LzmaDecoder` with no memory limit: whether it
/// accepts the payload, and what it writes when it does, depend on the arguments
/// alone. `LzmaProperties::validate` asserts the bounds on `lc`, `lp` and `pb`, and the
/// decoder's buffer divides by the dictionary size, hence the `requires`.
#[verifier::external_body]
pub(crate) fn lzma_decompress_raw(
    payload: &[u8],
    lc: u32,
    lp: u32,
    pb: u32,
    dict_size: u32,
    unpacked_size: u64,
) -> (r: Option<Vec<u8>>)
    requires
        lc <= 8,
        lp <= 4,
        pb <= 4,
        dict_size >= 4096,
    ensures
        r is Some <==> lzma_raw_decoded(payload@, lc, lp, pb, dict_size, unpacked_size) is Some,
        r matches Some(d) ==> lzma_raw_decoded(payload@, lc, lp, pb, dict_size, unpacked_size)
            == Some(d@),
{
    let properties = LzmaProperties { lc, lp, pb };
    let params = LzmaParams::new(properties, dict_size, Some(unpacked_size));
    let mut decoder = match LzmaDecoder::new(params, None) {
        Ok(d) => d,
        Err(_) => return None,
    };
    let mut out: Vec<u8> = Vec::new();
    let mut input: &[u8] = payload;
    match decoder.decompress(&mut input, &mut out) {
        Ok(()) => Some(out),
        Err(_) => None,
    }
}

} // verus!
