//! The error taxonomy shared by the framing engine, the codecs and the
//! protocol driver. Transport failures stay with the caller that owns the
//! socket; everything here describes malformed or unexpected bytes.

use vstd::prelude::*;

verus! {

/// The `(uid, total)` pair of a split-packet header, kept for error reports
/// when a fragment disagrees with the reassembly in progress.
#[derive(Debug, Clone, Copy, PartialEq, Eq, Structural)]
pub struct MultiHeader {
    pub uid: u32,
    pub total: usize,
}

/// Everything that can go wrong between raw datagram bytes and a typed record.
#[derive(Debug, Clone, Copy, PartialEq, Eq, Structural)]
pub enum Error {
    /// A codec met malformed or truncated bytes; carries the offset at which
    /// parsing could not continue.
    Parse(usize),
    /// The packet envelope held neither `-1` (single) nor `-2` (split) where
    /// one was required; carries the header that was found.
    WrongHeader(i32),
    /// A split-packet fragment whose `(uid, total)` disagrees with the
    /// reassembly in progress.
    Interrupted { base: MultiHeader, wrong: MultiHeader },
    /// The bzip2 decoder rejected the reassembled stream.
    Decompress,
    /// The decompressed payload failed the CRC-32 integrity check:
    /// `Crc32(expected, actual)`.
    Crc32(u32, u32),
    /// An A2S response kind byte other than the expected one:
    /// `UnknownHeader(found, expected)`.
    UnknownHeader(u8, u8),
}

} // verus!
