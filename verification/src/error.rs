//! The ways in which an operation of the scheme can fail.

use vstd::prelude::*;

verus! {

/// Why an operation produced no result. Every failing call reports exactly one kind.
#[derive(Clone, Copy, Debug, PartialEq, Eq, Structural)]
pub enum SchemeError {
    /// An input buffer has the wrong size or holds a field that cannot be read.
    Decode,
    /// Fewer than 32 bytes of entropy were supplied for blinding.
    Seed,
    /// The blinding factor is zero and so cannot be inverted.
    InvalidToken,
    /// Too few partial signatures, or two of them carry the same signer index.
    InsufficientShares,
    /// A pairing check did not hold.
    Verification,
}

impl SchemeError {
    /// A short stable code for the kind, for callers that report failures as text.
    pub fn code(&self) -> (c: &'static str)
        ensures
            c@ == error_code(*self),
    {
        match self {
            SchemeError::Decode => "DecodeError",
            SchemeError::Seed => "SeedError",
            SchemeError::InvalidToken => "InvalidTokenError",
            SchemeError::InsufficientShares => "InsufficientSharesError",
            SchemeError::Verification => "VerificationError",
        }
    }
}

/// The text that names each kind of failure.
pub open spec fn error_code(e: SchemeError) -> Seq<char> {
    match e {
        SchemeError::Decode => "DecodeError"@,
        SchemeError::Seed => "SeedError"@,
        SchemeError::InvalidToken => "InvalidTokenError"@,
        SchemeError::InsufficientShares => "InsufficientSharesError"@,
        SchemeError::Verification => "VerificationError"@,
    }
}

} // verus!
