//! What holds of every member: the round trip, and how each malformed member is
//! rejected.

use vstd::prelude::*;
use vstd::arithmetic::power2::{lemma2_to64, pow2};
use crate::codec::{crc32_of, lzma_raw_decoded};
use crate::decode::{decode_spec, member_size_of, LZIP_LC, LZIP_LP, LZIP_PB, MAX_MEMBER_SIZE};
use crate::encode::{footer_for, member_bytes};
use crate::error::LzipError;
use crate::footer::{footer_bytes, lemma_footer_round_trip, parse_footer_spec, Footer, FOOTER_SIZE};
use crate::header::{
    dict_size_of, header_bytes, lzip_magic, parse_header_spec, Header, DEFAULT_DICT_CODE,
    HEADER_SIZE, MAX_DICT_SIZE, MIN_DICT_SIZE,
};

verus! {

/// The dictionary size the encoder's header declares: 8 MiB.
pub proof fn lemma_default_dict_size()
    ensures
        dict_size_of(DEFAULT_DICT_CODE) == 0x80_0000,
        parse_header_spec(header_bytes(DEFAULT_DICT_CODE)) == Ok::<Header, LzipError>(
            Header { dict_size: 0x80_0000 },
        ),
{
    lemma2_to64();
    assert(pow2(23) == 0x80_0000);
    assert((DEFAULT_DICT_CODE % 32) as nat == 23);
    assert(dict_size_of(DEFAULT_DICT_CODE) == 0x80_0000);
    let b = header_bytes(DEFAULT_DICT_CODE);
    assert(b.subrange(0, 4) =~= lzip_magic());
}

/// The parts a decoder finds in a member framed by the encoder's header and footer `f`.
pub proof fn lemma_member_parts(payload: Seq<u8>, f: Footer)
    ensures
        ({
            let b = header_bytes(DEFAULT_DICT_CODE) + payload + footer_bytes(f);
            &&& b.len() == HEADER_SIZE + payload.len() + FOOTER_SIZE
            &&& b.take(HEADER_SIZE as int) == header_bytes(DEFAULT_DICT_CODE)
            &&& b.subrange(HEADER_SIZE as int, b.len() - FOOTER_SIZE) == payload
            &&& parse_footer_spec(b.subrange(b.len() - FOOTER_SIZE, b.len() as int)) == f
        }),
{
    lemma_footer_round_trip(f);
    let b = header_bytes(DEFAULT_DICT_CODE) + payload + footer_bytes(f);
    assert(b.take(HEADER_SIZE as int) =~= header_bytes(DEFAULT_DICT_CODE));
    assert(b.subrange(HEADER_SIZE as int, b.len() - FOOTER_SIZE) =~= payload);
    assert(b.subrange(b.len() - FOOTER_SIZE, b.len() as int) =~= footer_bytes(f));
}

/// Round trip: the member the encoder frames around `payload` for `data` decodes to
/// `data`, wherever the LZMA decoder turns `payload` back into `data` and the member
/// stays within 2 PiB.
pub proof fn lemma_round_trip(data: Seq<u8>, payload: Seq<u8>)
    requires
        data.len() <= u64::MAX,
        member_size_of(payload.len() as int) <= MAX_MEMBER_SIZE,
        lzma_raw_decoded(payload, LZIP_LC, LZIP_LP, LZIP_PB, 0x80_0000, data.len() as u64) == Some(data),
    ensures
        decode_spec(member_bytes(data, payload)) == Ok::<Seq<u8>, LzipError>(data),
{
    lemma_default_dict_size();
    lemma_member_parts(payload, footer_for(data, payload));
}

/// Magic rejection: six or more bytes that do not open with `LZIP` fail with
/// `InvalidMagic`.
pub proof fn lemma_magic_rejected(b: Seq<u8>)
    requires
        b.len() >= HEADER_SIZE,
        b.take(4) != lzip_magic(),
    ensures
        parse_header_spec(b.take(HEADER_SIZE as int)) == Err::<Header, LzipError>(LzipError::InvalidMagic),
        decode_spec(b) == Err::<Seq<u8>, LzipError>(LzipError::InvalidMagic),
{
    assert(b.take(HEADER_SIZE as int).subrange(0, 4) =~= b.take(4));
}

/// Version handling: after the signature, version `0` fails with
/// `UnsupportedVersion`, any version but `0` and `1` with `UnknownVersion`, and version
/// `1` with a legal dictionary size gives a header.
pub proof fn lemma_version(b: Seq<u8>)
    requires
        b.len() >= HEADER_SIZE,
        b.take(4) == lzip_magic(),
    ensures
        b[4] == 0 ==> decode_spec(b) == Err::<Seq<u8>, LzipError>(LzipError::UnsupportedVersion),
        b[4] != 0 && b[4] != 1 ==> decode_spec(b) == Err::<Seq<u8>, LzipError>(LzipError::UnknownVersion),
        b[4] == 1 && MIN_DICT_SIZE <= dict_size_of(b[5]) <= MAX_DICT_SIZE
            ==> parse_header_spec(b.take(HEADER_SIZE as int)) == Ok::<Header, LzipError>(
            Header { dict_size: dict_size_of(b[5]) as u32 },
        ),
{
    assert(b.take(HEADER_SIZE as int).subrange(0, 4) =~= b.take(4));
}

/// Dictionary sizes: code `0x0c` stands for exactly 4096, the smallest size accepted;
/// `0x2c` stands for 3840 and `0x1e` for 2^30; and a version-1 header whose code
/// stands for less than 4096 fails with `DictSizeTooSmall`, one whose code stands for
/// more than 2^29 with `DictSizeTooLarge`.
pub proof fn lemma_dict_size_bounds(b: Seq<u8>)
    requires
        b.len() >= HEADER_SIZE,
        b.take(4) == lzip_magic(),
        b[4] == 1,
    ensures
        dict_size_of(0x0c) == MIN_DICT_SIZE,
        dict_size_of(0x2c) == 3840,
        dict_size_of(0x1e) == 0x4000_0000,
        dict_size_of(b[5]) < MIN_DICT_SIZE ==> decode_spec(b) == Err::<Seq<u8>, LzipError>(LzipError::DictSizeTooSmall),
        dict_size_of(b[5]) > MAX_DICT_SIZE ==> decode_spec(b) == Err::<Seq<u8>, LzipError>(LzipError::DictSizeTooLarge),
{
    lemma2_to64();
    assert(pow2(12) == 4096);
    assert((0x0cu8 % 32) as nat == 12);
    assert(dict_size_of(0x0c) == MIN_DICT_SIZE);
    assert((0x2cu8 % 32) as nat == 12);
    assert(dict_size_of(0x2c) == 3840);
    assert(pow2(30) == 0x4000_0000);
    assert((0x1eu8 % 32) as nat == 30);
    assert(dict_size_of(0x1e) == 0x4000_0000);
    assert(b.take(HEADER_SIZE as int).subrange(0, 4) =~= b.take(4));
}

/// Truncation: fewer than 26 bytes fail with `TruncatedMember`, unless six of them
/// are there and the header already fails.
pub proof fn lemma_truncated(b: Seq<u8>)
    requires
        b.len() < HEADER_SIZE + FOOTER_SIZE,
        b.len() < HEADER_SIZE || parse_header_spec(b.take(HEADER_SIZE as int)) is Ok,
    ensures
        decode_spec(b) == Err::<Seq<u8>, LzipError>(LzipError::TruncatedMember),
{
}

/// Checksum tamper: where one payload byte of a sound member is changed and the LZMA
/// decoder still produces data whose CRC-32 differs from the recorded one, decoding
/// fails with `ChecksumMismatch`.
pub proof fn lemma_checksum_tamper(data: Seq<u8>, payload: Seq<u8>, i: int, v: u8)
    requires
        data.len() <= u64::MAX,
        member_size_of(payload.len() as int) <= MAX_MEMBER_SIZE,
        0 <= i < payload.len(),
        v != payload[i],
        lzma_raw_decoded(payload.update(i, v), LZIP_LC, LZIP_LP, LZIP_PB, 0x80_0000, data.len() as u64) matches Some(d)
            && crc32_of(d) != crc32_of(data),
    ensures
        decode_spec(
            header_bytes(DEFAULT_DICT_CODE) + payload.update(i, v) + footer_bytes(footer_for(data, payload)),
        ) == Err::<Seq<u8>, LzipError>(LzipError::ChecksumMismatch),
{
    lemma_default_dict_size();
    lemma_member_parts(payload.update(i, v), footer_for(data, payload));
}

/// Member-size tamper: a sound member whose footer records any other member length
/// fails with `MemberSizeMismatch`.
pub proof fn lemma_member_size_tamper(data: Seq<u8>, payload: Seq<u8>, member_size: u64)
    requires
        data.len() <= u64::MAX,
        member_size_of(payload.len() as int) <= MAX_MEMBER_SIZE,
        lzma_raw_decoded(payload, LZIP_LC, LZIP_LP, LZIP_PB, 0x80_0000, data.len() as u64) == Some(data),
        member_size != member_size_of(payload.len() as int),
    ensures
        decode_spec(
            header_bytes(DEFAULT_DICT_CODE) + payload + footer_bytes(
                Footer { member_size, ..footer_for(data, payload) },
            ),
        ) == Err::<Seq<u8>, LzipError>(LzipError::MemberSizeMismatch),
{
    lemma_default_dict_size();
    lemma_member_parts(payload, Footer { member_size, ..footer_for(data, payload) });
}

} // verus!
