//! The pairing arithmetic that the scheme rests on, reached through the
//! `threshold_bls` signature scheme over BLS12-381 with public keys in G2 and
//! signatures in G1.
//!
//! Nothing here is proved. Each function states what the outside code returns
//! by a name for its result; the functions that call them prove their own
//! contracts over those names.

use crate::codec::{all_records, distinct_indices, is_record, views};
use crate::error::SchemeError;
use rand_chacha::ChaChaRng;
use rand_core::SeedableRng;
use threshold_bls::curve::bls12381::{Scalar, G1, G2};
use threshold_bls::group::{Element, Point};
use threshold_bls::poly::Poly;
use threshold_bls::schemes::bls12_381::G2Scheme;
use threshold_bls::sig::{
    BLSError, BlindError, BlindScheme, BlindThresholdError, BlindThresholdScheme, Share,
    SignatureScheme, ThresholdError, ThresholdScheme, Token,
};
use vstd::prelude::*;

verus! {

/// Whether `Point::map` finds a point of G1 for the message.
pub uninterp spec fn hashes_to_curve(message: Seq<u8>) -> bool;

/// The blinding factor and blinded message that `BlindScheme::blind_msg` gives
/// for a message when its scalar is drawn from a ChaCha generator seeded with `seed`.
pub uninterp spec fn blinding(message: Seq<u8>, seed: Seq<u8>) -> Result<
    (Seq<u8>, Seq<u8>),
    SchemeError,
>;

/// What `BlindScheme::unblind_sig` gives for a blinding factor and a blinded signature.
pub uninterp spec fn unblinding(factor: Seq<u8>, blinded_signature: Seq<u8>) -> Result<
    Seq<u8>,
    SchemeError,
>;

/// What `BlindThresholdScheme::sign_blind_partial` gives for a share and a blinded message.
pub uninterp spec fn partial_signing(share: Seq<u8>, blinded_message: Seq<u8>) -> Result<
    Seq<u8>,
    SchemeError,
>;

/// What `BlindThresholdScheme::verify_blind_partial` decides for a public
/// polynomial, a blinded message and a partial signature.
pub uninterp spec fn partial_verification(
    polynomial: Seq<u8>,
    blinded_message: Seq<u8>,
    partial: Seq<u8>,
) -> Result<(), SchemeError>;

/// What `ThresholdScheme::aggregate` gives for a threshold and a list of records.
pub uninterp spec fn aggregation(threshold: int, partials: Seq<Seq<u8>>) -> Result<
    Seq<u8>,
    SchemeError,
>;

/// What `SignatureScheme::verify` decides for a public key, a message and a signature.
pub uninterp spec fn verification(public_key: Seq<u8>, message: Seq<u8>, signature: Seq<u8>) -> Result<
    (),
    SchemeError,
>;

/// The contents of a result that holds a buffer.
pub open spec fn bytes_outcome(r: Result<Vec<u8>, SchemeError>) -> Result<Seq<u8>, SchemeError> {
    match r {
        Ok(bytes) => Ok(bytes@),
        Err(e) => Err(e),
    }
}

/// The contents of a result that holds a pair of buffers.
pub open spec fn pair_outcome(r: Result<(Vec<u8>, Vec<u8>), SchemeError>) -> Result<
    (Seq<u8>, Seq<u8>),
    SchemeError,
> {
    match r {
        Ok(pair) => Ok((pair.0@, pair.1@)),
        Err(e) => Err(e),
    }
}

/// Calls `Point::map` on a fresh point of G1, which hashes the message to the
/// curve by try-and-increment and fails after 255 digests in a row that are no
/// curve point. Claims only that success is a function of the message.
#[verifier::external_body]
pub(crate) fn scheme_hashes(message: &[u8]) -> (ok: bool)
    ensures
        ok == hashes_to_curve(message@),
{
    let mut point = G1::new();
    point.map(message).is_ok()
}

/// Calls `ChaChaRng::from_seed` and `BlindScheme::blind_msg`, and encodes the
/// token with `bincode::serialize`. Claims only that the result is a function of
/// the message and the seed. The outside code hashes the message with
/// `Point::map` and panics where that fails, so the message must hash to the
/// curve.
#[verifier::external_body]
pub(crate) fn scheme_blind(message: &[u8], seed: &Vec<u8>) -> (r: Result<
    (Vec<u8>, Vec<u8>),
    SchemeError,
>)
    requires
        seed@.len() == 32,
        hashes_to_curve(message@),
    ensures
        pair_outcome(r) == blinding(message@, seed@),
{
    let mut key: [u8; 32] = [0; 32];
    key.copy_from_slice(seed);
    let mut rng = ChaChaRng::from_seed(key);
    let (token, blinded) = G2Scheme::blind_msg(message, &mut rng);
    match bincode::serialize(&token) {
        Ok(factor) => Ok((factor, blinded)),
        Err(_) => Err(SchemeError::Decode),
    }
}

/// Decodes the factor with `bincode::deserialize` and calls
/// `BlindScheme::unblind_sig`. Claims only that the result is a function of the
/// two buffers. A factor without inverse is reported as `InvalidToken`, a
/// buffer that cannot be decoded as `Decode`.
#[verifier::external_body]
pub(crate) fn scheme_unblind(factor: &[u8], blinded_signature: &[u8]) -> (r: Result<
    Vec<u8>,
    SchemeError,
>)
    ensures
        bytes_outcome(r) == unblinding(factor@, blinded_signature@),
{
    let token: Token<Scalar> = match bincode::deserialize(factor) {
        Ok(token) => token,
        Err(_) => return Err(SchemeError::Decode),
    };
    match G2Scheme::unblind_sig(&token, blinded_signature) {
        Ok(signature) => Ok(signature),
        Err(BlindError::InvalidToken) => Err(SchemeError::InvalidToken),
        Err(BlindError::BincodeError(_)) => Err(SchemeError::Decode),
        Err(BlindError::SignatureError(_)) => Err(SchemeError::Verification),
    }
}

/// Decodes the share with `bincode::deserialize` and calls
/// `BlindThresholdScheme::sign_blind_partial`. Claims only that the result is a
/// function of the two buffers. Every outside error is a decoding error.
#[verifier::external_body]
pub(crate) fn scheme_sign_blind_partial(share: &[u8], blinded_message: &[u8]) -> (r: Result<
    Vec<u8>,
    SchemeError,
>)
    ensures
        bytes_outcome(r) == partial_signing(share@, blinded_message@),
{
    let share: Share<Scalar> = match bincode::deserialize(share) {
        Ok(share) => share,
        Err(_) => return Err(SchemeError::Decode),
    };
    match G2Scheme::sign_blind_partial(&share, blinded_message) {
        Ok(partial) => Ok(partial),
        Err(BlindThresholdError::BincodeError(_)) => Err(SchemeError::Decode),
        Err(BlindThresholdError::BlindError(_)) => Err(SchemeError::Decode),
    }
}

/// Decodes the polynomial with `bincode::deserialize` and calls
/// `BlindThresholdScheme::verify_blind_partial`. Claims only that the verdict is
/// a function of the three buffers. A pairing mismatch is reported as
/// `Verification`, a buffer that cannot be decoded as `Decode`. The outside code
/// evaluates the polynomial at the record's index plus one, computed in 32
/// bits, so the record's index must lie below the largest 32-bit number.
#[verifier::external_body]
pub(crate) fn scheme_verify_blind_partial(
    polynomial: &[u8],
    blinded_message: &[u8],
    partial: &[u8],
) -> (r: Result<(), SchemeError>)
    requires
        is_record(partial@),
    ensures
        r == partial_verification(polynomial@, blinded_message@, partial@),
{
    let polynomial: Poly<G2> = match bincode::deserialize(polynomial) {
        Ok(polynomial) => polynomial,
        Err(_) => return Err(SchemeError::Decode),
    };
    match G2Scheme::verify_blind_partial(&polynomial, blinded_message, partial) {
        Ok(()) => Ok(()),
        Err(BlindThresholdError::BincodeError(_)) => Err(SchemeError::Decode),
        Err(BlindThresholdError::BlindError(inner)) => match inner {
            BlindError::SignatureError(_) => Err(SchemeError::Verification),
            BlindError::BincodeError(_) => Err(SchemeError::Decode),
            BlindError::InvalidToken => Err(SchemeError::InvalidToken),
        },
    }
}

/// Calls `ThresholdScheme::aggregate`. Claims only that the result is a function
/// of the threshold and the records. A record whose payload is no curve point
/// is reported as `Decode`, too few records as `InsufficientShares`. The
/// outside code maps each index to its successor in 32 bits and keeps one
/// record per index, expecting as many to remain as it took, so the records
/// must be laid out as records and carry distinct indices.
#[verifier::external_body]
pub(crate) fn scheme_aggregate(threshold: usize, partials: &Vec<Vec<u8>>) -> (r: Result<
    Vec<u8>,
    SchemeError,
>)
    requires
        all_records(views(partials@)),
        distinct_indices(views(partials@)),
    ensures
        bytes_outcome(r) == aggregation(threshold as int, views(partials@)),
{
    match G2Scheme::aggregate(threshold, partials) {
        Ok(signature) => Ok(signature),
        Err(ThresholdError::BincodeError(_)) => Err(SchemeError::Decode),
        Err(ThresholdError::SignatureError(_)) => Err(SchemeError::Verification),
        Err(ThresholdError::PolyError(_)) => Err(SchemeError::InsufficientShares),
        Err(ThresholdError::NotEnoughPartialSignatures(_, _)) => Err(
            SchemeError::InsufficientShares,
        ),
    }
}

/// Decodes the public key with `bincode::deserialize` and calls
/// `SignatureScheme::verify`. Claims only that the verdict is a function of the
/// three buffers. A buffer that cannot be decoded is reported as `Decode`, a
/// pairing mismatch or a message that hashes to no curve point as `Verification`.
#[verifier::external_body]
pub(crate) fn scheme_verify(public_key: &[u8], message: &[u8], signature: &[u8]) -> (r: Result<
    (),
    SchemeError,
>)
    ensures
        r == verification(public_key@, message@, signature@),
{
    let public_key: G2 = match bincode::deserialize(public_key) {
        Ok(public_key) => public_key,
        Err(_) => return Err(SchemeError::Decode),
    };
    match G2Scheme::verify(&public_key, message, signature) {
        Ok(()) => Ok(()),
        Err(BLSError::DeserializationError(_)) => Err(SchemeError::Decode),
        Err(BLSError::InvalidSig) => Err(SchemeError::Verification),
        Err(BLSError::HashingError) => Err(SchemeError::Verification),
    }
}

} // verus!
