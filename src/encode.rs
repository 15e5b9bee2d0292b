//! Encoding one member: header, the LZMA payload without the coder's own header, and
//! the footer.

use vstd::prelude::*;
use crate::codec::{crc32, crc32_of, lzma_compress, lzma_stream_of, LZMA_HEADER_SIZE};
use crate::decode::{member_size_of, MAX_MEMBER_SIZE};
use crate::error::LzipError;
use crate::footer::{footer_bytes, Footer, FOOTER_SIZE};
use crate::header::{header_bytes, write_header, DEFAULT_DICT_CODE, HEADER_SIZE};

verus! {

/// The payload carried in a member: the coder's stream less its 13-byte header,
/// whose fields the member's header and footer carry instead.
pub open spec fn payload_of(stream: Seq<u8>) -> Seq<u8> {
    stream.skip(LZMA_HEADER_SIZE as int)
}

/// The footer of a member that frames `payload` for the data `data`.
pub open spec fn footer_for(data: Seq<u8>, payload: Seq<u8>) -> Footer {
    Footer {
        crc32: crc32_of(data),
        data_size: data.len() as u64,
        member_size: member_size_of(payload.len() as int) as u64,
    }
}

/// The bytes of the member that frames `payload` for the data `data`.
pub open spec fn member_bytes(data: Seq<u8>, payload: Seq<u8>) -> Seq<u8> {
    header_bytes(DEFAULT_DICT_CODE) + payload + footer_bytes(footer_for(data, payload))
}

/// Appends the payload of the coder's stream `stream` and returns its length.
pub fn write_payload(stream: &[u8], output: &mut Vec<u8>) -> (r: u64)
    requires
        stream@.len() >= LZMA_HEADER_SIZE,
    ensures
        final(output)@ == old(output)@ + payload_of(stream@),
        r == payload_of(stream@).len(),
{
    let mut i: usize = LZMA_HEADER_SIZE;
    while i < stream.len()
        invariant
            LZMA_HEADER_SIZE <= i <= stream@.len(),
            output@ == old(output)@ + stream@.subrange(LZMA_HEADER_SIZE as int, i as int),
        decreases stream@.len() - i,
    {
        output.push(stream[i]);
        i = i + 1;
        assert(output@ =~= old(output)@ + stream@.subrange(LZMA_HEADER_SIZE as int, i as int));
    }
    assert(stream@.subrange(LZMA_HEADER_SIZE as int, i as int) =~= payload_of(stream@));
    (stream.len() - LZMA_HEADER_SIZE) as u64
}

/// Compresses `input` and appends the payload, returning its length.
pub fn write_stream(input: &[u8], output: &mut Vec<u8>) -> (r: Result<u64, LzipError>)
    ensures
        match r {
            Ok(n) => lzma_stream_of(input@).len() >= LZMA_HEADER_SIZE
                && final(output)@ == old(output)@ + payload_of(lzma_stream_of(input@))
                && n == payload_of(lzma_stream_of(input@)).len(),
            Err(_) => false,
        },
{
    match lzma_compress(input) {
        Some(stream) => Ok(write_payload(stream.as_slice(), output)),
        None => Err(LzipError::IoFailure),
    }
}

/// Appends the footer for the data `input` and a payload of `compressed_data_size`
/// bytes.
pub fn write_footer(input: &[u8], output: &mut Vec<u8>, compressed_data_size: u64)
    requires
        member_size_of(compressed_data_size as int) <= u64::MAX,
    ensures
        final(output)@ == old(output)@ + footer_bytes(
            Footer {
                crc32: crc32_of(input@),
                data_size: input@.len() as u64,
                member_size: member_size_of(compressed_data_size as int) as u64,
            },
        ),
{
    let footer = Footer {
        crc32: crc32(input),
        data_size: input.len() as u64,
        member_size: (HEADER_SIZE as u64) + compressed_data_size + (FOOTER_SIZE as u64),
    };
    footer.write(output);
}

/// Compresses `input` into one member and appends it to `output`. On failure `output`
/// is left as it was; it fails, with `MemberTooLarge`, exactly where the member would
/// pass 2 PiB.
pub fn encode_stream(input: &[u8], output: &mut Vec<u8>) -> (r: Result<(), LzipError>)
    ensures
        r is Ok ==> lzma_stream_of(input@).len() >= LZMA_HEADER_SIZE
            && final(output)@ == old(output)@ + member_bytes(input@, payload_of(lzma_stream_of(input@))),
        r is Err ==> final(output)@ == old(output)@,
        lzma_stream_of(input@).len() >= LZMA_HEADER_SIZE,
        r is Ok <==> member_size_of(payload_of(lzma_stream_of(input@)).len() as int) <= MAX_MEMBER_SIZE,
        r is Err ==> r == Err::<(), LzipError>(LzipError::MemberTooLarge),
{
    let mut member: Vec<u8> = Vec::new();
    write_header(&mut member);
    let compressed_data_size = match write_stream(input, &mut member) {
        Ok(n) => n,
        Err(e) => return Err(e),
    };
    if compressed_data_size > MAX_MEMBER_SIZE - (HEADER_SIZE + FOOTER_SIZE) as u64 {
        return Err(LzipError::MemberTooLarge);
    }
    write_footer(input, &mut member, compressed_data_size);
    assert(member@ =~= member_bytes(input@, payload_of(lzma_stream_of(input@))));
    output.append(&mut member);
    Ok(())
}

} // verus!
