//! The reasons a member is rejected.

use vstd::prelude::*;

verus! {

/// Why encoding or decoding a member failed.
#[derive(Clone, Copy, Debug, PartialEq, Eq, Structural)]
pub enum LzipError {
    /// The first four bytes are not `LZIP`.
    InvalidMagic,
    /// Version byte `0`: a real lzip version that this library does not handle.
    UnsupportedVersion,
    /// A version byte other than `0` or `1`.
    UnknownVersion,
    /// The header's dictionary size is below 4 KiB.
    DictSizeTooSmall,
    /// The header's dictionary size is above 512 MiB.
    DictSizeTooLarge,
    /// The input is too short to hold a header and a footer.
    TruncatedMember,
    /// The CRC-32 of the decoded data differs from the footer's.
    ChecksumMismatch,
    /// The decoded data's length differs from the footer's.
    SizeMismatch,
    /// The member is longer than 2 PiB.
    MemberTooLarge,
    /// The member's length differs from the footer's.
    MemberSizeMismatch,
    /// The LZMA decoder refused the payload.
    UnderlyingCodecError,
    /// Reading the source or writing the sink failed.
    IoFailure,
}

} // verus!
