//! Errors reported while decoding protocol data.
use vstd::prelude::*;

verus! {

/// Why a byte sequence could not be decoded.
#[derive(Debug, Clone, Copy, PartialEq, Eq, Structural)]
pub enum ProtocolError {
    /// The input ended before the value was complete.
    UnexpectedEnd,
    /// A VarInt ran over its five-byte limit.
    VarIntTooBig,
    /// A string announced a negative byte length.
    NegativeLength,
    /// A string's bytes are not valid UTF-8.
    InvalidUtf8,
}

} // verus!
