//! Blind threshold BLS signatures over byte buffers.
//!
//! A coordinator blinds a message, signers holding shares of a private key each
//! sign the blinded message, any `t` of the partial signatures are combined, and
//! the combined signature is unblinded into an ordinary BLS signature.

pub mod backend;
pub mod codec;
pub mod error;
pub mod laws;
pub mod protocol;

pub use codec::{PartialSignature, PARTIAL_SIG_LENGTH, SIGNATURE_LEN, VEC_LENGTH};
pub use error::SchemeError;
pub use protocol::{
    blind, combine, partial_sign_blinded_message, partial_verify_blind_signature, unblind, verify,
    Blinded, VerifiedSignature,
};
