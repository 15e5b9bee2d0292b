use lzip::decode::{check_member, decode_member, decode_stream, MAX_MEMBER_SIZE};
use lzip::encode::{encode_stream, write_footer, write_payload, write_stream};
use lzip::error::LzipError;
use lzip::footer::{read_le, write_le, Footer};
use lzip::header::{decode_dict_size, write_header, Header};

const EMPTY_MEMBER: [u8; 36] = [
    0x4c, 0x5a, 0x49, 0x50, 0x01, 0x0c, 0x00, 0x83, 0xff, 0xfb, 0xff, 0xff, 0xc0, 0x00, 0x00,
    0x00, 0x00, 0x00, 0x00, 0x00, 0x00, 0x00, 0x00, 0x00, 0x00, 0x00, 0x00, 0x00, 0x24, 0x00,
    0x00, 0x00, 0x00, 0x00, 0x00, 0x00,
];

const HELLO_MEMBER: [u8; 48] = [
    0x4c, 0x5a, 0x49, 0x50, 0x01, 0x0c, 0x00, 0x24, 0x19, 0x49, 0x98, 0x6f, 0x10, 0x19, 0xc6,
    0xd7, 0x31, 0xeb, 0x36, 0x50, 0xb2, 0x98, 0x48, 0xff, 0xfe, 0xa5, 0xb0, 0x00, 0xd5, 0xe0,
    0x39, 0xb7, 0x0c, 0x00, 0x00, 0x00, 0x00, 0x00, 0x00, 0x00, 0x30, 0x00, 0x00, 0x00, 0x00,
    0x00, 0x00, 0x00,
];

fn round_trip(x: &[u8]) {
    let mut compressed: Vec<u8> = Vec::new();
    encode_stream(x, &mut compressed).unwrap();
    let mut decomp: Vec<u8> = Vec::new();
    decode_stream(compressed.as_slice(), &mut decomp).unwrap();
    assert_eq!(decomp, x)
}

fn header_of(b: &[u8]) -> [u8; 6] {
    [b[0], b[1], b[2], b[3], b[4], b[5]]
}

#[test]
fn round_trip_basics() {
    round_trip(b"");
    round_trip(vec![0x00; 1_000_000].as_slice());
    round_trip(vec![0xFF; 1_000_000].as_slice());
}

#[test]
fn round_trip_hello() {
    round_trip(b"Hello world");
}

#[test]
fn decompress_empty_world() {
    let x: &[u8] = &EMPTY_MEMBER;
    let mut decomp: Vec<u8> = Vec::new();
    decode_stream(x, &mut decomp).unwrap();
    assert_eq!(decomp, b"")
}

#[test]
fn decompress_hello_world() {
    let x: &[u8] = &HELLO_MEMBER;
    let mut decomp: Vec<u8> = Vec::new();
    decode_stream(x, &mut decomp).unwrap();
    assert_eq!(decomp, b"Hello world\x0a")
}

#[test]
fn round_trip_varied_bytes() {
    let data: Vec<u8> = (0..5000u32).map(|i| (i * 7 % 251) as u8).collect();
    round_trip(data.as_slice());
}

#[test]
fn encoded_member_layout() {
    let data = b"Hello world\n";
    let mut member: Vec<u8> = Vec::new();
    encode_stream(data, &mut member).unwrap();
    assert_eq!(&member[..6], &[0x4c, 0x5a, 0x49, 0x50, 0x01, 0x17]);
    let n = member.len();
    let footer = Footer::parse(&member[n - 20..]);
    assert_eq!(footer.crc32, 0xb7_39_e0_d5);
    assert_eq!(footer.data_size, 12);
    assert_eq!(footer.member_size, n as u64);
}

#[test]
fn encode_appends_after_existing_bytes() {
    let mut out: Vec<u8> = vec![9, 9];
    encode_stream(b"abc", &mut out).unwrap();
    assert_eq!(&out[..2], &[9, 9]);
    let mut back: Vec<u8> = Vec::new();
    decode_stream(&out[2..], &mut back).unwrap();
    assert_eq!(back, b"abc");
}

#[test]
fn decode_leaves_output_on_failure() {
    let mut out: Vec<u8> = vec![1, 2, 3];
    let mut bad = HELLO_MEMBER;
    bad[0] = b'X';
    assert_eq!(decode_stream(&bad, &mut out), Err(LzipError::InvalidMagic));
    assert_eq!(out, vec![1, 2, 3]);
}

#[test]
fn magic_rejection() {
    for i in 0..4 {
        let mut bad = HELLO_MEMBER;
        bad[i] ^= 0x20;
        assert_eq!(decode_member(&bad), Err(LzipError::InvalidMagic));
        assert_eq!(Header::parse(header_of(&bad)), Err(LzipError::InvalidMagic));
    }
}

#[test]
fn version_handling() {
    let mut h = header_of(&HELLO_MEMBER);
    h[4] = 0;
    assert_eq!(Header::parse(h), Err(LzipError::UnsupportedVersion));
    h[4] = 2;
    assert_eq!(Header::parse(h), Err(LzipError::UnknownVersion));
    h[4] = 0xff;
    assert_eq!(Header::parse(h), Err(LzipError::UnknownVersion));
    h[4] = 1;
    assert_eq!(Header::parse(h), Ok(Header { dict_size: 4096 }));
    let mut m = HELLO_MEMBER;
    m[4] = 0;
    assert_eq!(decode_member(&m), Err(LzipError::UnsupportedVersion));
    m[4] = 7;
    assert_eq!(decode_member(&m), Err(LzipError::UnknownVersion));
}

#[test]
fn dict_size_formula() {
    assert_eq!(decode_dict_size(0x0c), 4096);
    assert_eq!(decode_dict_size(0x2c), 3840);
    assert_eq!(decode_dict_size(0x17), 8388608);
    assert_eq!(decode_dict_size(0x1d), 536870912);
    assert_eq!(decode_dict_size(0x3d), 536870912 - 33554432);
    assert_eq!(decode_dict_size(0xff), 2147483648 - 7 * 134217728);
    assert_eq!(decode_dict_size(0x1f), 2147483648);
    let mut h = header_of(&HELLO_MEMBER);
    h[5] = 0x0c;
    assert_eq!(Header::parse(h), Ok(Header { dict_size: 4096 }));
    h[5] = 0x2c;
    assert_eq!(Header::parse(h), Err(LzipError::DictSizeTooSmall));
    h[5] = 0x0b;
    assert_eq!(Header::parse(h), Err(LzipError::DictSizeTooSmall));
    h[5] = 0x1d;
    assert_eq!(Header::parse(h), Ok(Header { dict_size: 536870912 }));
    h[5] = 0x1e;
    assert_eq!(Header::parse(h), Err(LzipError::DictSizeTooLarge));
    h[5] = 0x3e;
    assert_eq!(Header::parse(h), Err(LzipError::DictSizeTooLarge));
}

#[test]
fn truncation_safety() {
    for n in 0..26 {
        assert_eq!(decode_member(&HELLO_MEMBER[..n]), Err(LzipError::TruncatedMember));
    }
    assert_eq!(decode_member(&EMPTY_MEMBER[..25]), Err(LzipError::TruncatedMember));
}

#[test]
fn checksum_tamper() {
    let mut crc_flipped = HELLO_MEMBER;
    crc_flipped[28] ^= 0x01;
    assert_eq!(decode_member(&crc_flipped), Err(LzipError::ChecksumMismatch));
    let mut payload_flipped = HELLO_MEMBER;
    payload_flipped[10] ^= 0x02;
    assert_eq!(decode_member(&payload_flipped), Err(LzipError::ChecksumMismatch));
    let mut other_flip = HELLO_MEMBER;
    other_flip[18] ^= 0x80;
    assert_eq!(decode_member(&other_flip), Err(LzipError::ChecksumMismatch));
}

#[test]
fn member_size_tamper() {
    let mut m = HELLO_MEMBER;
    m[40] = 0x31;
    assert_eq!(decode_member(&m), Err(LzipError::MemberSizeMismatch));
    let mut e = EMPTY_MEMBER;
    e[35] = 0x01;
    assert_eq!(decode_member(&e), Err(LzipError::MemberSizeMismatch));
}

#[test]
fn codec_failure_is_reported() {
    let mut m: Vec<u8> = HELLO_MEMBER[..6].to_vec();
    m.extend_from_slice(&HELLO_MEMBER[28..]);
    assert_eq!(decode_member(&m), Err(LzipError::UnderlyingCodecError));
}

#[test]
fn gates_in_order() {
    let data = b"Hello world\n";
    let footer = Footer { crc32: 0xb739e0d5, data_size: 12, member_size: 48 };
    assert_eq!(check_member(&footer, 22, data, 0xb739e0d5), Ok(()));
    assert_eq!(check_member(&footer, 22, data, 0), Err(LzipError::ChecksumMismatch));
    assert_eq!(check_member(&footer, 22, &data[..11], 0xb739e0d5), Err(LzipError::SizeMismatch));
    assert_eq!(check_member(&footer, 23, data, 0xb739e0d5), Err(LzipError::MemberSizeMismatch));
    let big = (MAX_MEMBER_SIZE - 25) as usize;
    assert_eq!(check_member(&footer, big, data, 0xb739e0d5), Err(LzipError::MemberTooLarge));
    let at_ceiling = Footer { member_size: MAX_MEMBER_SIZE, ..footer };
    assert_eq!(check_member(&at_ceiling, big - 1, data, 0xb739e0d5), Ok(()));
    assert_eq!(check_member(&footer, 22, &data[..11], 1), Err(LzipError::ChecksumMismatch));
}

#[test]
fn footer_round_trip() {
    let f = Footer { crc32: 0xdeadbeef, data_size: 0x0102030405060708, member_size: 26 };
    let mut out: Vec<u8> = Vec::new();
    f.write(&mut out);
    assert_eq!(
        out,
        vec![
            0xef, 0xbe, 0xad, 0xde, 0x08, 0x07, 0x06, 0x05, 0x04, 0x03, 0x02, 0x01, 26, 0, 0, 0,
            0, 0, 0, 0
        ]
    );
    assert_eq!(Footer::parse(&out), f);
}

#[test]
fn little_endian_fields() {
    let b = [0x01u8, 0x02, 0x03, 0x04, 0xff, 0xff, 0xff, 0xff, 0xff, 0xff, 0xff, 0xff];
    assert_eq!(read_le(&b, 0, 4), 0x04030201);
    assert_eq!(read_le(&b, 1, 2), 0x0302);
    assert_eq!(read_le(&b, 4, 8), u64::MAX);
    assert_eq!(read_le(&b, 3, 0), 0);
    let mut out: Vec<u8> = Vec::new();
    write_le(&mut out, 0x1122334455667788, 8);
    assert_eq!(out, vec![0x88, 0x77, 0x66, 0x55, 0x44, 0x33, 0x22, 0x11]);
    write_le(&mut out, 0x1234, 1);
    assert_eq!(out.len(), 9);
    assert_eq!(out[8], 0x34);
}

#[test]
fn header_bytes_written() {
    let mut out: Vec<u8> = vec![7];
    write_header(&mut out);
    assert_eq!(out, vec![7, 0x4c, 0x5a, 0x49, 0x50, 0x01, 0x17]);
    assert_eq!(Header::parse(header_of(&out[1..])), Ok(Header { dict_size: 8388608 }));
}

#[test]
fn payload_drops_coder_header() {
    let stream: Vec<u8> = (0..20u8).collect();
    let mut out: Vec<u8> = Vec::new();
    assert_eq!(write_payload(&stream, &mut out), 7);
    assert_eq!(out, vec![13, 14, 15, 16, 17, 18, 19]);
    let mut none: Vec<u8> = Vec::new();
    assert_eq!(write_payload(&stream[..13], &mut none), 0);
    assert!(none.is_empty());
}

#[test]
fn stream_and_footer_pieces() {
    let data = b"Hello world\n";
    let mut payload: Vec<u8> = Vec::new();
    let n = write_stream(data, &mut payload).unwrap();
    assert_eq!(n as usize, payload.len());
    assert!(n > 0);
    let mut footer: Vec<u8> = Vec::new();
    write_footer(data, &mut footer, n);
    let f = Footer::parse(&footer);
    assert_eq!(f, Footer { crc32: 0xb739e0d5, data_size: 12, member_size: 26 + n });
}

