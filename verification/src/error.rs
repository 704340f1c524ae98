use vstd::prelude::*;

verus! {

/// Common error for HDLC actions.
#[derive(Debug, Clone, Copy, PartialEq, Eq, Structural)]
pub enum HDLCError {
    /// Catches duplicate special characters.
    DuplicateSpecialChar,
    /// Catches a random sync char in the data.
    FendCharInData,
    /// Catches a random swap char, `fesc`, in the data with no valid trade byte.
    MissingTradeChar,
    /// No first fend on the message.
    MissingFirstFend,
    /// No final fend on the message.
    MissingFinalFend,
    /// Too much data to be converted into a frame.
    TooMuchData,
    /// Too few data to be converted from a frame.
    TooFewData,
    /// Checksum for decoded frame is invalid; reserved for a higher protocol
    /// layer, never produced by this crate.
    InvalidChecksum,
    /// More than the allowed payload size resulted after decoding a frame.
    TooMuchDecodedData,
}

} // verus!
