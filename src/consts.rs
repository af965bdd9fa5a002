use vstd::prelude::*;

verus! {

/// Length of a code verifier when the caller asks for none.
pub const DEFAULT_CODE_VERIFIER_LENGTH: usize = 98;

/// Shortest code verifier that RFC 7636 allows.
pub const MIN_CODE_VERIFIER_LENGTH: usize = 43;

/// Longest code verifier that RFC 7636 allows.
pub const MAX_CODE_VERIFIER_LENGTH: usize = 128;

} // verus!
