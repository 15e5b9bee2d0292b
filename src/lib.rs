//! The `.lz` (lzip) container: a fixed six-byte header, a raw LZMA payload and a
//! twenty-byte footer that carries a CRC-32 of the data, the data's length and the
//! member's length.
//!
//! Framing and every validation gate are verified here; the LZMA entropy coder and
//! the CRC-32 engine are outside crates, reached through small trusted wrappers.

pub mod codec;
pub mod decode;
pub mod encode;
pub mod error;
pub mod footer;
pub mod header;
pub mod laws;
