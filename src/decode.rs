//! Decoding one member: header, payload, footer, then the validation gates. Nothing
//! reaches the caller unless every gate passes.

use vstd::prelude::*;
use crate::codec::{crc32, crc32_of, lzma_decompress_raw, lzma_raw_decoded};
use crate::error::LzipError;
use crate::footer::{parse_footer_spec, Footer, FOOTER_SIZE};
use crate::header::{parse_header_spec, Header, HEADER_SIZE};

verus! {

/// The LZMA literal context bits of every lzip payload.
pub const LZIP_LC: u32 = 3;

/// The LZMA literal position bits of every lzip payload.
pub const LZIP_LP: u32 = 0;

/// The LZMA position bits of every lzip payload.
pub const LZIP_PB: u32 = 2;

/// The largest member accepted: 2 PiB.
pub const MAX_MEMBER_SIZE: u64 = 0x8_0000_0000_0000;

/// The length of the member that frames a payload of `payload_len` bytes.
pub open spec fn member_size_of(payload_len: int) -> int {
    HEADER_SIZE + payload_len + FOOTER_SIZE
}

/// The gates run once the payload has been decoded to `data`, whose CRC-32 is `crc`:
/// checksum, data length, member-length ceiling, member length, the first that fails.
pub open spec fn check_member_spec(footer: Footer, payload_len: int, data: Seq<u8>, crc: u32) -> Result<(), LzipError> {
    if crc != footer.crc32 {
        Err(LzipError::ChecksumMismatch)
    } else if data.len() != footer.data_size {
        Err(LzipError::SizeMismatch)
    } else if member_size_of(payload_len) > MAX_MEMBER_SIZE {
        Err(LzipError::MemberTooLarge)
    } else if member_size_of(payload_len) != footer.member_size {
        Err(LzipError::MemberSizeMismatch)
    } else {
        Ok(())
    }
}

/// What decoding the bytes `b` of one member gives: the data, or the first failure.
pub open spec fn decode_spec(b: Seq<u8>) -> Result<Seq<u8>, LzipError> {
    if b.len() < HEADER_SIZE {
        Err(LzipError::TruncatedMember)
    } else {
        match parse_header_spec(b.take(HEADER_SIZE as int)) {
            Err(e) => Err(e),
            Ok(h) => if b.len() < HEADER_SIZE + FOOTER_SIZE {
                Err(LzipError::TruncatedMember)
            } else {
                let payload = b.subrange(HEADER_SIZE as int, b.len() - FOOTER_SIZE);
                let footer = parse_footer_spec(b.subrange(b.len() - FOOTER_SIZE, b.len() as int));
                match lzma_raw_decoded(payload, LZIP_LC, LZIP_LP, LZIP_PB, h.dict_size, footer.data_size) {
                    None => Err(LzipError::UnderlyingCodecError),
                    Some(d) => match check_member_spec(footer, payload.len() as int, d, crc32_of(d)) {
                        Err(e) => Err(e),
                        Ok(_) => Ok(d),
                    },
                }
            },
        }
    }
}

/// Runs the gates on decoded data `data`, whose CRC-32 is `crc`, against the footer
/// of a member whose payload is `payload_len` bytes long.
pub fn check_member(footer: &Footer, payload_len: usize, data: &[u8], crc: u32) -> (r: Result<(), LzipError>)
    ensures
        r == check_member_spec(*footer, payload_len as int, data@, crc),
{
    if crc != footer.crc32 {
        return Err(LzipError::ChecksumMismatch);
    }
    if data.len() as u64 != footer.data_size {
        return Err(LzipError::SizeMismatch);
    }
    let framing: u64 = (HEADER_SIZE + FOOTER_SIZE) as u64;
    if payload_len as u64 > MAX_MEMBER_SIZE - framing {
        return Err(LzipError::MemberTooLarge);
    }
    let member_size: u64 = framing + payload_len as u64;
    if member_size != footer.member_size {
        return Err(LzipError::MemberSizeMismatch);
    }
    Ok(())
}

/// A copy of `b[start..end]`.
pub fn copy_range(b: &[u8], start: usize, end: usize) -> (r: Vec<u8>)
    requires
        start <= end <= b@.len(),
    ensures
        r@ == b@.subrange(start as int, end as int),
{
    let mut r: Vec<u8> = Vec::new();
    let mut i: usize = start;
    while i < end
        invariant
            start <= i <= end <= b@.len(),
            r@ == b@.subrange(start as int, i as int),
        decreases end - i,
    {
        r.push(b[i]);
        i = i + 1;
        assert(r@ =~= b@.subrange(start as int, i as int));
    }
    r
}

/// Decodes one member held in `input` and returns its data once every gate passed.
pub fn decode_member(input: &[u8]) -> (r: Result<Vec<u8>, LzipError>)
    ensures
        match r {
            Ok(d) => decode_spec(input@) == Ok::<Seq<u8>, LzipError>(d@),
            Err(e) => decode_spec(input@) == Err::<Seq<u8>, LzipError>(e),
        },
{
    let len = input.len();
    if len < HEADER_SIZE {
        return Err(LzipError::TruncatedMember);
    }
    let header_buf: [u8; 6] = [input[0], input[1], input[2], input[3], input[4], input[5]];
    assert(header_buf@ =~= input@.take(HEADER_SIZE as int));
    let header = match Header::parse(header_buf) {
        Ok(h) => h,
        Err(e) => return Err(e),
    };
    if len < HEADER_SIZE + FOOTER_SIZE {
        return Err(LzipError::TruncatedMember);
    }
    let payload = copy_range(input, HEADER_SIZE, len - FOOTER_SIZE);
    let footer_buf = copy_range(input, len - FOOTER_SIZE, len);
    let footer = Footer::parse(footer_buf.as_slice());
    let data = match lzma_decompress_raw(
        payload.as_slice(),
        LZIP_LC,
        LZIP_LP,
        LZIP_PB,
        header.dict_size,
        footer.data_size,
    ) {
        Some(d) => d,
        None => return Err(LzipError::UnderlyingCodecError),
    };
    let crc = crc32(data.as_slice());
    match check_member(&footer, payload.len(), data.as_slice(), crc) {
        Ok(()) => Ok(data),
        Err(e) => Err(e),
    }
}

/// Decodes one member held in `input` and appends its data to `output`. On failure
/// `output` is left as it was.
pub fn decode_stream(input: &[u8], output: &mut Vec<u8>) -> (r: Result<(), LzipError>)
    ensures
        match decode_spec(input@) {
            Ok(d) => r is Ok && final(output)@ == old(output)@ + d,
            Err(e) => r == Err::<(), LzipError>(e) && final(output)@ == old(output)@,
        },
{
    match decode_member(input) {
        Ok(mut data) => {
            output.append(&mut data);
            Ok(())
        },
        Err(e) => Err(e),
    }
}

} // verus!
