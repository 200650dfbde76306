//! What holds of the operations together, proved from their contracts.

use crate::backend::{aggregation, partial_verification, unblinding};
use crate::codec::{
    all_records, chunks, distinct_indices, indices_of, is_polynomial, is_record, joined,
    lemma_chunks_of_joined, record_index, share_index, stream_fault,
};
use crate::error::SchemeError;
use crate::protocol::{
    blind_result, combine_result, partial_sign_result, partial_verify_result, sealed_signature,
    unblind_result,
};
use vstd::prelude::*;

verus! {

/// Blinding reads only the first 32 bytes of the seed: two seeds that agree
/// there blind every message alike.
pub proof fn law_blind_reads_seed_prefix(message: Seq<u8>, seed: Seq<u8>, other: Seq<u8>)
    requires
        seed.len() >= 32,
        other.len() >= 32,
        seed.subrange(0, 32) == other.subrange(0, 32),
    ensures
        blind_result(message, seed) == blind_result(message, other),
{
}

/// A factor that blinding returned is never refused by unblinding: with a
/// signature of signature width, the result is the unblinded signature.
pub proof fn law_blinding_factor_is_accepted(
    message: Seq<u8>,
    seed: Seq<u8>,
    blinded_signature: Seq<u8>,
)
    requires
        blind_result(message, seed) is Ok,
        blinded_signature.len() == 48,
    ensures
        unblind_result(blinded_signature, blind_result(message, seed)->Ok_0.0) == sealed_signature(
            unblinding(blind_result(message, seed)->Ok_0.0, blinded_signature),
        ),
{
}

/// A combined signature has signature width, so unblinding takes it as it is.
pub proof fn law_combined_signature_has_signature_width(threshold: int, signatures: Seq<u8>)
    requires
        combine_result(threshold, signatures) is Ok,
    ensures
        combine_result(threshold, signatures)->Ok_0.len() == 48,
{
}

/// A partial signature that signing returned is a record with the share's
/// index, so partial verification against a well-formed polynomial is decided
/// by the pairing check alone.
pub proof fn law_partial_signature_is_verifiable(
    share: Seq<u8>,
    blinded_message: Seq<u8>,
    polynomial: Seq<u8>,
)
    requires
        partial_sign_result(share, blinded_message) is Ok,
        is_polynomial(polynomial),
    ensures
        is_record(partial_sign_result(share, blinded_message)->Ok_0),
        record_index(partial_sign_result(share, blinded_message)->Ok_0) == share_index(share),
        partial_verify_result(
            polynomial,
            blinded_message,
            partial_sign_result(share, blinded_message)->Ok_0,
        ) == partial_verification(
            polynomial,
            blinded_message,
            partial_sign_result(share, blinded_message)->Ok_0,
        ),
{
}

/// Fewer records than the threshold are never combined; where the stream is
/// well-formed the failure is the shortage of shares.
pub proof fn law_too_few_shares_are_refused(threshold: int, signatures: Seq<u8>)
    requires
        signatures.len() < 60 * threshold,
    ensures
        combine_result(threshold, signatures) is Err,
        signatures.len() % 60 == 0 && all_records(chunks(signatures)) ==> combine_result(
            threshold,
            signatures,
        ) == Err::<Seq<u8>, SchemeError>(SchemeError::InsufficientShares),
{
}

/// Two records with one signer index are never combined, whatever else the
/// stream holds and however low the threshold; where the stream is well-formed
/// the failure is the shortage of shares.
pub proof fn law_duplicate_index_is_refused(threshold: int, signatures: Seq<u8>, i: int, j: int)
    requires
        signatures.len() % 60 == 0,
        0 <= i < j < chunks(signatures).len(),
        record_index(chunks(signatures)[i]) == record_index(chunks(signatures)[j]),
    ensures
        combine_result(threshold, signatures) is Err,
        all_records(chunks(signatures)) ==> combine_result(threshold, signatures) == Err::<
            Seq<u8>,
            SchemeError,
        >(SchemeError::InsufficientShares),
{
    let ints = indices_of(chunks(signatures));
    assert(ints[i] == ints[j]);
    assert(!distinct_indices(chunks(signatures)));
}

/// The concatenation of at least `threshold` partial signatures that signing
/// returned for shares with distinct indices is admitted: the result is the
/// interpolation of exactly these partial signatures.
pub proof fn law_distinct_signers_are_combined(
    threshold: int,
    partials: Seq<Seq<u8>>,
    shares: Seq<Seq<u8>>,
    blinded_message: Seq<u8>,
)
    requires
        shares.len() == partials.len(),
        threshold <= shares.len(),
        forall|k: int|
            0 <= k < shares.len() ==> #[trigger] partial_sign_result(shares[k], blinded_message)
                == Ok::<Seq<u8>, SchemeError>(partials[k]),
        forall|a: int, b: int|
            0 <= a < b < shares.len() ==> share_index(#[trigger] shares[a]) != share_index(
                #[trigger] shares[b],
            ),
    ensures
        stream_fault(threshold, joined(partials)) is None,
        combine_result(threshold, joined(partials)) == sealed_signature(
            aggregation(threshold, partials),
        ),
{
    assert forall|k: int| 0 <= k < partials.len() implies (#[trigger] partials[k]).len()
        == 60 by {
        assert(partial_sign_result(shares[k], blinded_message) == Ok::<Seq<u8>, SchemeError>(
            partials[k],
        ));
    }
    lemma_chunks_of_joined(partials);
    let signatures = joined(partials);
    let rs = chunks(signatures);
    let ints = indices_of(rs);
    assert forall|k: int| 0 <= k < rs.len() implies is_record(#[trigger] rs[k]) && record_index(
        rs[k],
    ) == share_index(shares[k]) by {
        assert(partial_sign_result(shares[k], blinded_message) == Ok::<Seq<u8>, SchemeError>(
            rs[k],
        ));
    }
    assert forall|a: int, b: int|
        0 <= a < ints.len() && 0 <= b < ints.len() && a != b implies ints[a] != ints[b] by {
        assert(is_record(rs[a]) && is_record(rs[b]));
        if a < b {
            assert(share_index(shares[a]) != share_index(shares[b]));
        } else {
            assert(share_index(shares[b]) != share_index(shares[a]));
        }
    }
}

} // verus!
