//! Failures reported by the encoder.
use vstd::prelude::*;

verus! {

/// Why an input could not be turned into a QR code.
#[derive(Clone, Copy, Debug, PartialEq, Eq, Structural)]
pub enum Error {
    /// The input does not fit the symbol at the chosen error correction level.
    CapacityExceeded,
    /// The requested mode cannot represent the input.
    InvalidMode,
    /// The requested version is outside 1 to 40.
    InvalidVersion,
    /// The requested mask is outside 0 to 7.
    InvalidMask,
    /// A character of the input has no symbol in the mode it is converted with.
    UnsupportedCharacter,
}

} // verus!
