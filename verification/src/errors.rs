//! The error kinds of the library's boundary functions.  Internal
//! arithmetic is total; only parameter selection, input-shape checks and
//! generator exhaustion can fail, and each failure names its kind.

use vstd::prelude::*;

verus! {

/// What a boundary function can reject.
#[derive(PartialEq, Eq, Structural, Clone, Copy, Debug)]
pub enum KemError {
    /// A security level other than 2, 3 or 4, or a generator strength the
    /// construction does not offer.
    InvalidSecurityLevel,
    /// A key, ciphertext or seed of the wrong byte length.
    InvalidInputLength,
    /// The generator's reseed counter passed its limit; an explicit reseed
    /// is required.
    DrbgExhausted,
    /// The operating system's randomness source failed to deliver.
    RandomnessUnavailable,
}

impl KemError {
    /// A short description of the error.
    pub fn message(&self) -> (r: String)
        ensures
            r@.len() > 0,
    {
        proof {
            reveal_strlit("invalid security level");
            reveal_strlit("invalid input length");
            reveal_strlit("deterministic generator exhausted; reseed required");
            reveal_strlit("operating system randomness unavailable");
        }
        match self {
            KemError::InvalidSecurityLevel => "invalid security level".to_string(),
            KemError::InvalidInputLength => "invalid input length".to_string(),
            KemError::DrbgExhausted => "deterministic generator exhausted; reseed required"
                .to_string(),
            KemError::RandomnessUnavailable => "operating system randomness unavailable"
                .to_string(),
        }
    }
}

} // verus!
