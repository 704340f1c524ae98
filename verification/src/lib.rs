//! Byte-stuffing framing codec in the style of Sensirion's HDLC protocol.
//!
//! A raw payload is wrapped into a frame delimited by a configurable `fend`
//! byte; reserved byte values inside the payload are replaced by two-byte
//! escape sequences so that `fend` never occurs in the frame interior.
//! Decoding validates a frame and recovers the original payload.

mod buffer;
mod chars;
mod codec;
mod error;
mod laws;

pub use buffer::buf_bytes;
pub use chars::SpecialChars;
pub use codec::{decode, encode, escape_byte, escape_seq, spec_decode, spec_encode, trade_back,
    unescape_seq, MAX_FRAME, MAX_PAYLOAD};
pub use error::HDLCError;
pub use laws::{lemma_encode_delimiters, lemma_encode_length, lemma_round_trip};
