//! The six-byte member header: the signature `LZIP`, a version byte and a packed
//! dictionary-size code.

use vstd::prelude::*;
use vstd::arithmetic::power2::pow2;
use vstd::bits::{lemma_u32_pow2_no_overflow, lemma_u32_shl_is_mul};
use crate::error::LzipError;

verus! {

/// Length of the header in bytes.
pub const HEADER_SIZE: usize = 6;

/// The only version this library reads and writes.
pub const LZIP_VERSION_NUMBER: u8 = 1;

/// Smallest dictionary size a header may declare (4 KiB).
pub const MIN_DICT_SIZE: u32 = 4096;

/// Largest dictionary size a header may declare (512 MiB).
pub const MAX_DICT_SIZE: u32 = 536870912;

/// The dictionary-size code the encoder writes: `0x17`, which stands for 8 MiB, the
/// window of the LZMA encoder. A size chosen from the input would replace it here.
pub const DEFAULT_DICT_CODE: u8 = 0x17;

/// The signature that opens every member.
pub open spec fn lzip_magic() -> Seq<u8> {
    seq![0x4cu8, 0x5au8, 0x49u8, 0x50u8]
}

/// The dictionary size a packed code stands for: a power of two (the low five bits
/// give the exponent) less that many sixteenths of it as the high three bits say.
pub open spec fn dict_size_of(code: u8) -> int {
    let base = pow2((code % 32) as nat) as int;
    base - (base / 16) * (code / 32) as int
}

/// A validated header.
#[derive(Clone, Copy, Debug, PartialEq, Eq, Structural)]
pub struct Header {
    pub dict_size: u32,
}

/// What parsing the six header bytes `b` gives: the first failing check, in order,
/// or the header.
pub open spec fn parse_header_spec(b: Seq<u8>) -> Result<Header, LzipError> {
    if b.subrange(0, 4) != lzip_magic() {
        Err(LzipError::InvalidMagic)
    } else if b[4] == 0 {
        Err(LzipError::UnsupportedVersion)
    } else if b[4] != LZIP_VERSION_NUMBER {
        Err(LzipError::UnknownVersion)
    } else if dict_size_of(b[5]) < MIN_DICT_SIZE {
        Err(LzipError::DictSizeTooSmall)
    } else if dict_size_of(b[5]) > MAX_DICT_SIZE {
        Err(LzipError::DictSizeTooLarge)
    } else {
        Ok(Header { dict_size: dict_size_of(b[5]) as u32 })
    }
}

/// The bytes of a header with the given dictionary-size code.
pub open spec fn header_bytes(code: u8) -> Seq<u8> {
    lzip_magic() + seq![LZIP_VERSION_NUMBER, code]
}

/// Computes the dictionary size of a packed code with machine integers.
pub fn decode_dict_size(code: u8) -> (r: u32)
    ensures
        r as int == dict_size_of(code),
{
    let shift: u32 = (code & 0x1f) as u32;
    let correction: u32 = ((code >> 5) & 0x07) as u32;
    assert(shift == code % 32 && correction == code / 32) by (bit_vector)
        requires
            shift == (code & 0x1f) as u32,
            correction == ((code >> 5) & 0x07) as u32,
    ;
    proof {
        lemma_u32_pow2_no_overflow(shift as nat);
        lemma_u32_shl_is_mul(1, shift);
    }
    let base: u32 = 1u32 << shift;
    let step: u32 = base / 16;
    assert(step * correction <= base) by (nonlinear_arith)
        requires
            step == base / 16,
            correction <= 7,
    ;
    base - step * correction
}

impl Header {
    /// Parses and validates the six header bytes.
    pub fn parse(input: [u8; 6]) -> (r: Result<Header, LzipError>)
        ensures
            r == parse_header_spec(input@),
    {
        if !(input[0] == 0x4c && input[1] == 0x5a && input[2] == 0x49 && input[3] == 0x50) {
            proof {
                if input@.subrange(0, 4) == lzip_magic() {
                    assert(input@.subrange(0, 4)[0] == input@[0]);
                    assert(input@.subrange(0, 4)[1] == input@[1]);
                    assert(input@.subrange(0, 4)[2] == input@[2]);
                    assert(input@.subrange(0, 4)[3] == input@[3]);
                }
            }
            return Err(LzipError::InvalidMagic);
        }
        assert(input@.subrange(0, 4) =~= lzip_magic());
        if input[4] == 0 {
            return Err(LzipError::UnsupportedVersion);
        }
        if input[4] != LZIP_VERSION_NUMBER {
            return Err(LzipError::UnknownVersion);
        }
        let dict_size = decode_dict_size(input[5]);
        if dict_size < MIN_DICT_SIZE {
            return Err(LzipError::DictSizeTooSmall);
        }
        if dict_size > MAX_DICT_SIZE {
            return Err(LzipError::DictSizeTooLarge);
        }
        Ok(Header { dict_size })
    }
}

/// Appends the header the encoder writes: signature, version `1` and
/// [`DEFAULT_DICT_CODE`].
pub fn write_header(output: &mut Vec<u8>)
    ensures
        final(output)@ == old(output)@ + header_bytes(DEFAULT_DICT_CODE),
{
    output.push(0x4c);
    output.push(0x5a);
    output.push(0x49);
    output.push(0x50);
    output.push(LZIP_VERSION_NUMBER);
    output.push(DEFAULT_DICT_CODE);
    assert(output@ =~= old(output)@ + header_bytes(DEFAULT_DICT_CODE));
}

} // verus!
