//! Decoder for append-only binary ledger files.
//!
//! A ledger file is a concatenation of blocks. Each block starts with a
//! four-byte magic sentinel and a four-byte declared size, followed by a
//! fixed-size header and a variable number of variable-length transaction
//! records. Counts and script lengths use a self-describing variable-length
//! integer encoding. The decoder walks raw bytes, reconstructs block headers,
//! transactions, inputs and outputs, and tracks consumed bytes so a caller
//! can locate the next block in the stream.
//!
//! The wire format of every structure is written down as a specification
//! over byte sequences (`parse_varint`, `parse_block`, `walk_blocks`), and
//! every executable decoder is proved to agree with it.
use vstd::prelude::*;

pub mod block;
pub mod records;
pub mod source;
pub mod varint;
pub mod walker;
pub mod words;

verus! {

/// The four-byte sentinel that must stand at every block boundary. Any other
/// value there signals end-of-stream or corruption for the rest of the file.
pub const MAGIC: u32 = 0xD9B4BEF9;

/// Byte order of the multi-byte fields of the stream. The ledger format is
/// little-endian throughout, but the reader is generic over byte order so the
/// same logic serves other layouts.
#[derive(Clone, Copy, Debug, PartialEq, Eq, Structural)]
pub enum Endianness {
    Little,
    Big,
}

/// How decoding a stream can fail.
#[derive(Clone, Copy, Debug, PartialEq, Eq, Structural)]
pub enum DecodeError {
    /// The four bytes at a presumed block boundary are not the magic sentinel.
    BadMagic,
    /// Fewer bytes remain than a fixed-width or varint-prefixed field requires.
    TruncatedInput,
    /// A block's declared size would advance the cursor past the end of the file.
    TruncatedBlock,
}

} // verus!
