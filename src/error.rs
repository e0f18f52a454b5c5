//! The library's error type: one variant per failure kind, with typed data.

use vstd::prelude::*;

verus! {

/// Every failure the protocol core and its callers can report.
#[derive(Debug, Clone, PartialEq, Eq)]
pub enum RvrError {
    /// A start marker arrived inside a packet; the partial packet was dropped.
    UnexpectedStart,
    /// The byte after an escape was itself a start, end or escape marker.
    InvalidEscape,
    /// An escape was the last byte, with nothing after it to unescape.
    IncompleteEscape,
    /// The buffer ended before a required field (or the checksum) was read.
    Truncated,
    /// The trailing checksum byte differs from the one computed over the packet.
    ChecksumMismatch { expected: u8, actual: u8 },
    /// No matching response arrived in time.
    Timeout,
    /// The physical channel failed to read or write; the text describes why.
    Transport(String),
    /// A packet expected to be a response does not carry the response flag.
    NotAResponse,
    /// The robot refused the request (bad id, length, parameter, or busy).
    InvalidResponse(u8),
    /// The robot reported that the command failed, with its error code.
    CommandFailed(u8),
    /// A response that must carry data came back with an empty payload.
    MissingPayload,
}

} // verus!
