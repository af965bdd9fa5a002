use vstd::prelude::*;

verus! {

/// Why a string is not URL-safe base64 without padding.
#[derive(Debug, Clone, Copy, PartialEq, Eq, Structural)]
pub enum DecodeError {
    /// A byte outside the alphabet, at the given offset.
    InvalidByte(usize, u8),
    /// The length leaves a single symbol in the last group.
    InvalidLength,
    /// The last symbol carries bits that no byte would use, at the given offset.
    InvalidLastSymbol(usize, u8),
    /// Padding where none is allowed.
    InvalidPadding,
}

/// A code verifier length outside the bounds of RFC 7636.
#[derive(Debug, Clone, Copy, PartialEq, Eq, Structural)]
pub enum CodeVerifierError {
    /// The length that was asked for.
    InvalidLength(usize),
}

} // verus!
