//! The ways in which a packet body can fail to decode or encode.

use vstd::prelude::*;

verus! {

/// Why a body could not be decoded.
#[derive(Debug, Clone, Copy, PartialEq, Eq)]
pub enum DecodeError {
    /// A field or a payload runs past the end of the bytes.
    UnexpectedEof,
    /// The bytes of a string are not UTF-8.
    InvalidUtf8,
    /// A ULEB128 integer does not fit in 64 bits.
    VarintOverflow,
}

/// Why a packet could not be put on the wire.
#[derive(Debug, Clone, Copy, PartialEq, Eq)]
pub enum EncodeError {
    /// The payload is longer than the header's 32-bit length field can say.
    PayloadTooLarge,
}

} // verus!
