//! The six operations of the scheme, each from byte buffers to byte buffers.
//!
//! Every operation checks the sizes and layouts of its inputs itself, hands
//! well-formed buffers to the pairing arithmetic, and checks the layout of what
//! comes back before returning it.

use crate::backend::{
    aggregation, blinding, bytes_outcome, hashes_to_curve, pair_outcome, partial_signing,
    partial_verification, scheme_aggregate, scheme_blind, scheme_hashes,
    scheme_sign_blind_partial, scheme_unblind, scheme_verify, scheme_verify_blind_partial,
    unblinding, verification,
};
use crate::codec::{
    admit_records, all_zero, chunks, is_polynomial, is_record, is_zero, polynomial_framed,
    record_index, record_index_of, seed_prefix, share_index, share_index_of, stream_fault,
    PUBLIC_KEY_LEN, SHARE_LEN, SIGNATURE_LEN, TOKEN_LEN,
};
use crate::error::SchemeError;
use vstd::prelude::*;
use vstd::slice::slice_to_vec;

verus! {

/// A blinded message together with the factor that unblinds a signature over it.
#[derive(Debug)]
pub struct Blinded {
    /// The secret scalar, 32 bytes, never all zero.
    pub blinding_factor: Vec<u8>,
    /// The message's curve point scaled by the factor, 48 bytes.
    pub message: Vec<u8>,
}

impl Blinded {
    /// The factor and the blinded message as byte sequences.
    pub open spec fn view(&self) -> (Seq<u8>, Seq<u8>) {
        (self.blinding_factor@, self.message@)
    }
}

/// A signature that passed verification. Only [`verify`] makes one, so holding
/// one is evidence that the pairing check held.
#[derive(Debug)]
pub struct VerifiedSignature {
    bytes: Vec<u8>,
}

impl VerifiedSignature {
    /// The bytes of the signature.
    pub closed spec fn view(&self) -> Seq<u8> {
        self.bytes@
    }

    /// The bytes of the signature.
    pub fn as_bytes(&self) -> (b: &Vec<u8>)
        ensures
            b@ == self@,
    {
        &self.bytes
    }
}

/// What becomes of a blinding: a factor of 32 bytes that are not all zero and a
/// message of 48 bytes pass; other sizes are a decoding fault, a zero factor an
/// invalid token; a failure stays what it is.
pub open spec fn sealed_blinding(outcome: Result<(Seq<u8>, Seq<u8>), SchemeError>) -> Result<
    (Seq<u8>, Seq<u8>),
    SchemeError,
> {
    match outcome {
        Err(e) => Err(e),
        Ok(pair) => if pair.0.len() != TOKEN_LEN || pair.1.len() != SIGNATURE_LEN {
            Err(SchemeError::Decode)
        } else if is_zero(pair.0) {
            Err(SchemeError::InvalidToken)
        } else {
            Ok(pair)
        },
    }
}

/// What becomes of a signature: one of 48 bytes passes, another size is a
/// decoding fault, a failure stays what it is.
pub open spec fn sealed_signature(outcome: Result<Seq<u8>, SchemeError>) -> Result<
    Seq<u8>,
    SchemeError,
> {
    match outcome {
        Err(e) => Err(e),
        Ok(signature) => if signature.len() == SIGNATURE_LEN {
            Ok(signature)
        } else {
            Err(SchemeError::Decode)
        },
    }
}

/// What becomes of a partial signature made for the signer `index`: a record
/// that carries this index passes, anything else is a decoding fault, a failure
/// stays what it is.
pub open spec fn sealed_partial(index: int, outcome: Result<Seq<u8>, SchemeError>) -> Result<
    Seq<u8>,
    SchemeError,
> {
    match outcome {
        Err(e) => Err(e),
        Ok(partial) => if is_record(partial) && record_index(partial) == index {
            Ok(partial)
        } else {
            Err(SchemeError::Decode)
        },
    }
}

/// The contents of a result that holds a blinded message.
pub open spec fn blinded_outcome(r: Result<Blinded, SchemeError>) -> Result<
    (Seq<u8>, Seq<u8>),
    SchemeError,
> {
    match r {
        Ok(blinded) => Ok(blinded@),
        Err(e) => Err(e),
    }
}

/// Accepts a blinding only if both parts have their fixed width and the factor
/// is not zero.
pub fn seal_blinding(outcome: Result<(Vec<u8>, Vec<u8>), SchemeError>) -> (r: Result<
    Blinded,
    SchemeError,
>)
    ensures
        blinded_outcome(r) == sealed_blinding(pair_outcome(outcome)),
{
    match outcome {
        Err(e) => Err(e),
        Ok(pair) => {
            let (blinding_factor, message) = pair;
            if blinding_factor.len() != TOKEN_LEN || message.len() != SIGNATURE_LEN {
                Err(SchemeError::Decode)
            } else if all_zero(blinding_factor.as_slice()) {
                Err(SchemeError::InvalidToken)
            } else {
                Ok(Blinded { blinding_factor, message })
            }
        },
    }
}

/// Accepts a signature only if it has the fixed signature width.
pub fn seal_signature(outcome: Result<Vec<u8>, SchemeError>) -> (r: Result<Vec<u8>, SchemeError>)
    ensures
        bytes_outcome(r) == sealed_signature(bytes_outcome(outcome)),
{
    match outcome {
        Err(e) => Err(e),
        Ok(signature) => {
            if signature.len() == SIGNATURE_LEN {
                Ok(signature)
            } else {
                Err(SchemeError::Decode)
            }
        },
    }
}

/// Accepts a partial signature only if it is laid out as a record and carries
/// the index of the signer it was made for.
pub fn seal_partial(index: u32, outcome: Result<Vec<u8>, SchemeError>) -> (r: Result<
    Vec<u8>,
    SchemeError,
>)
    ensures
        bytes_outcome(r) == sealed_partial(index as int, bytes_outcome(outcome)),
{
    match outcome {
        Err(e) => Err(e),
        Ok(partial) => {
            match record_index_of(partial.as_slice()) {
                Ok(carried) => {
                    if carried == index {
                        Ok(partial)
                    } else {
                        Err(SchemeError::Decode)
                    }
                },
                Err(e) => Err(e),
            }
        },
    }
}

/// What blinding a message under a seed gives: a seed of fewer than 32 bytes is
/// refused, and so is a message that hashes to no curve point; otherwise the
/// scalar is drawn from a generator seeded with the seed's first 32 bytes, and
/// the result is checked for its sizes and for a zero factor.
pub open spec fn blind_result(message: Seq<u8>, seed: Seq<u8>) -> Result<
    (Seq<u8>, Seq<u8>),
    SchemeError,
> {
    if seed.len() < 32 {
        Err(SchemeError::Seed)
    } else if !hashes_to_curve(message) {
        Err(SchemeError::Decode)
    } else {
        sealed_blinding(blinding(message, seed.subrange(0, 32)))
    }
}

/// Blinds `message` with a factor drawn from a generator seeded with the first
/// 32 bytes of `seed`. The same message and seed give the same result, so a
/// caller who wants blindness supplies a fresh, unpredictable seed each time.
pub fn blind(message: &[u8], seed: &[u8]) -> (r: Result<Blinded, SchemeError>)
    ensures
        blinded_outcome(r) == blind_result(message@, seed@),
        seed@.len() < 32 ==> r matches Err(SchemeError::Seed),
        r matches Ok(blinded) ==> blinded.blinding_factor@.len() == TOKEN_LEN && !is_zero(
            blinded.blinding_factor@,
        ) && blinded.message@.len() == SIGNATURE_LEN,
{
    let key: Vec<u8> = match seed_prefix(seed) {
        Ok(key) => key,
        Err(e) => {
            return Err(e);
        },
    };
    if !scheme_hashes(message) {
        return Err(SchemeError::Decode);
    }
    seal_blinding(scheme_blind(message, &key))
}

/// Why a signature cannot be unblinded with a factor, if the sizes or the
/// factor itself already rule it out.
pub open spec fn unblind_fault(blinded_signature: Seq<u8>, blinding_factor: Seq<u8>) -> Option<
    SchemeError,
> {
    if blinded_signature.len() != SIGNATURE_LEN || blinding_factor.len() != TOKEN_LEN {
        Some(SchemeError::Decode)
    } else if is_zero(blinding_factor) {
        Some(SchemeError::InvalidToken)
    } else {
        None
    }
}

/// What unblinding gives: the fault that the inputs show, or else the
/// signature with the factor's inverse applied, checked for its size.
pub open spec fn unblind_result(blinded_signature: Seq<u8>, blinding_factor: Seq<u8>) -> Result<
    Seq<u8>,
    SchemeError,
> {
    match unblind_fault(blinded_signature, blinding_factor) {
        Some(fault) => Err(fault),
        None => sealed_signature(unblinding(blinding_factor, blinded_signature)),
    }
}

/// Removes the blinding factor from a signature over a blinded message, which
/// leaves a signature over the message itself.
pub fn unblind(blinded_signature: &[u8], blinding_factor: &[u8]) -> (r: Result<
    Vec<u8>,
    SchemeError,
>)
    ensures
        bytes_outcome(r) == unblind_result(blinded_signature@, blinding_factor@),
        r matches Ok(signature) ==> signature@.len() == SIGNATURE_LEN,
{
    if blinded_signature.len() != SIGNATURE_LEN || blinding_factor.len() != TOKEN_LEN {
        return Err(SchemeError::Decode);
    }
    if all_zero(blinding_factor) {
        return Err(SchemeError::InvalidToken);
    }
    seal_signature(scheme_unblind(blinding_factor, blinded_signature))
}

/// What a partial signing gives: buffers of the wrong size are a decoding
/// fault; otherwise the share's scalar is applied to the blinded message, and
/// the result must be a record that carries the share's index.
pub open spec fn partial_sign_result(share: Seq<u8>, blinded_message: Seq<u8>) -> Result<
    Seq<u8>,
    SchemeError,
> {
    if share.len() != SHARE_LEN || blinded_message.len() != SIGNATURE_LEN {
        Err(SchemeError::Decode)
    } else {
        sealed_partial(share_index(share), partial_signing(share, blinded_message))
    }
}

/// Signs a blinded message with one share of the private key. The result is a
/// record that carries the share's index.
pub fn partial_sign_blinded_message(share: &[u8], blinded_message: &[u8]) -> (r: Result<
    Vec<u8>,
    SchemeError,
>)
    ensures
        bytes_outcome(r) == partial_sign_result(share@, blinded_message@),
        r matches Ok(partial) ==> is_record(partial@) && record_index(partial@) == share_index(
            share@,
        ),
{
    if blinded_message.len() != SIGNATURE_LEN {
        return Err(SchemeError::Decode);
    }
    match share_index_of(share) {
        Ok(index) => seal_partial(index, scheme_sign_blind_partial(share, blinded_message)),
        Err(e) => Err(e),
    }
}

/// Whether the three buffers of a partial verification have their layouts.
pub open spec fn partial_inputs_framed(
    polynomial: Seq<u8>,
    blinded_message: Seq<u8>,
    partial: Seq<u8>,
) -> bool {
    is_polynomial(polynomial) && blinded_message.len() == SIGNATURE_LEN && is_record(partial)
}

/// What a partial verification decides: buffers without their layout are a
/// decoding fault; otherwise the pairing check against the polynomial's value
/// at the record's index decides.
pub open spec fn partial_verify_result(
    polynomial: Seq<u8>,
    blinded_message: Seq<u8>,
    partial: Seq<u8>,
) -> Result<(), SchemeError> {
    if partial_inputs_framed(polynomial, blinded_message, partial) {
        partial_verification(polynomial, blinded_message, partial)
    } else {
        Err(SchemeError::Decode)
    }
}

/// Checks one partial signature over a blinded message against the public
/// polynomial. A mismatch is the `Verification` error: the caller leaves that
/// signer's contribution out.
pub fn partial_verify_blind_signature(
    polynomial: &[u8],
    blinded_message: &[u8],
    partial: &[u8],
) -> (r: Result<(), SchemeError>)
    ensures
        r == partial_verify_result(polynomial@, blinded_message@, partial@),
{
    if !polynomial_framed(polynomial) || blinded_message.len() != SIGNATURE_LEN {
        return Err(SchemeError::Decode);
    }
    match record_index_of(partial) {
        Ok(_) => scheme_verify_blind_partial(polynomial, blinded_message, partial),
        Err(e) => Err(e),
    }
}

/// What combining a stream under a threshold gives: the fault that the stream
/// shows, or else the interpolation of its records, checked for its size.
pub open spec fn combine_result(threshold: int, signatures: Seq<u8>) -> Result<
    Seq<u8>,
    SchemeError,
> {
    match stream_fault(threshold, signatures) {
        Some(fault) => Err(fault),
        None => sealed_signature(aggregation(threshold, chunks(signatures))),
    }
}

/// Combines the partial signatures of a stream into one signature by
/// interpolation at zero. The stream is cut by fixed stride; it must hold only
/// well-formed records, at least `threshold` of them, and no signer index twice.
pub fn combine(threshold: usize, signatures: &[u8]) -> (r: Result<Vec<u8>, SchemeError>)
    ensures
        bytes_outcome(r) == combine_result(threshold as int, signatures@),
        r matches Ok(signature) ==> signature@.len() == SIGNATURE_LEN,
{
    let records: Vec<Vec<u8>> = match admit_records(threshold, signatures) {
        Ok(records) => records,
        Err(e) => {
            return Err(e);
        },
    };
    seal_signature(scheme_aggregate(threshold, &records))
}

/// The contents of a verdict.
pub open spec fn verdict_outcome(r: Result<VerifiedSignature, SchemeError>) -> Result<
    (),
    SchemeError,
> {
    match r {
        Ok(_) => Ok(()),
        Err(e) => Err(e),
    }
}

/// What a verification decides: a key or signature of the wrong size is a
/// decoding fault; otherwise the pairing check decides.
pub open spec fn verify_result(public_key: Seq<u8>, message: Seq<u8>, signature: Seq<u8>) -> Result<
    (),
    SchemeError,
> {
    if public_key.len() != PUBLIC_KEY_LEN || signature.len() != SIGNATURE_LEN {
        Err(SchemeError::Decode)
    } else {
        verification(public_key, message, signature)
    }
}

/// Checks a signature over a message against the public key. Success hands out
/// the signature as a [`VerifiedSignature`]; every failure is an error that the
/// caller has to handle to get at anything.
pub fn verify(public_key: &[u8], message: &[u8], signature: &[u8]) -> (r: Result<
    VerifiedSignature,
    SchemeError,
>)
    ensures
        verdict_outcome(r) == verify_result(public_key@, message@, signature@),
        r matches Ok(verified) ==> verified@ == signature@,
{
    if public_key.len() != PUBLIC_KEY_LEN || signature.len() != SIGNATURE_LEN {
        return Err(SchemeError::Decode);
    }
    match scheme_verify(public_key, message, signature) {
        Ok(unit) => {
            assert(unit == ());
            Ok(VerifiedSignature { bytes: slice_to_vec(signature) })
        },
        Err(e) => Err(e),
    }
}

} // verus!
