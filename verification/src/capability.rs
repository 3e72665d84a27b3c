//! Hashing and signature checking as capabilities that a caller picks: the
//! in-process primitives of `SolanaCrypto`, or the stand-ins of
//! `FiredancerCrypto`.

use crate::crypto::{
    byte_strings32, byte_strings64, repeated, sha256, signing_preimage, tells, verdict,
    SolanaCrypto, Verdict,
};
use crate::firedancer_integration::{xor_fold, FiredancerCrypto};
use crate::{fails_with, ErrorView, TerminatorError};
use vstd::prelude::*;

verus! {

/// A way to hash.
pub trait Hasher {
    /// The digest that this way of hashing gives to `data`.
    spec fn digest(data: Seq<u8>) -> Seq<u8>;

    /// Hashes `data`.
    fn hash(data: &[u8]) -> (digest: [u8; 32])
        ensures
            digest@ == Self::digest(data@),
    ;
}

/// A way to check signatures.
pub trait SignatureVerifier {
    /// What this way of checking says of one signature.
    spec fn verdict(public_key: Seq<u8>, message: Seq<u8>, signature: Seq<u8>) -> Verdict;

    /// Checks one signature.
    fn verify(signature: &[u8; 64], message: &[u8], public_key: &[u8; 32]) -> (result: Result<
        bool,
        TerminatorError,
    >)
        ensures
            tells(result, Self::verdict(public_key@, message@, signature@)),
    ;
}

impl Hasher for SolanaCrypto {
    open spec fn digest(data: Seq<u8>) -> Seq<u8> {
        sha256(data)
    }

    fn hash(data: &[u8]) -> (digest: [u8; 32]) {
        SolanaCrypto::sha256_hash(data)
    }
}

impl SignatureVerifier for SolanaCrypto {
    open spec fn verdict(public_key: Seq<u8>, message: Seq<u8>, signature: Seq<u8>) -> Verdict {
        verdict(public_key, message, signature)
    }

    fn verify(signature: &[u8; 64], message: &[u8], public_key: &[u8; 32]) -> (result: Result<
        bool,
        TerminatorError,
    >) {
        SolanaCrypto::verify_ed25519_signature(signature, message, public_key)
    }
}

impl Hasher for FiredancerCrypto {
    open spec fn digest(data: Seq<u8>) -> Seq<u8> {
        xor_fold(data, data.len())
    }

    fn hash(data: &[u8]) -> (digest: [u8; 32]) {
        match FiredancerCrypto::sha256_hash(data) {
            Ok(digest) => digest,
            Err(_) => [0u8; 32],
        }
    }
}

impl SignatureVerifier for FiredancerCrypto {
    open spec fn verdict(public_key: Seq<u8>, message: Seq<u8>, signature: Seq<u8>) -> Verdict {
        Verdict::Accepted
    }

    fn verify(signature: &[u8; 64], message: &[u8], public_key: &[u8; 32]) -> (result: Result<
        bool,
        TerminatorError,
    >) {
        FiredancerCrypto::verify_ed25519_signature(signature, message, public_key)
    }
}

/// The verdict of `V` on the first `count` signatures, checked in order:
/// that of the first one that is not accepted, or acceptance of all.
pub open spec fn batch_verdict_of<V: SignatureVerifier>(
    public_keys: Seq<Seq<u8>>,
    messages: Seq<Seq<u8>>,
    signatures: Seq<Seq<u8>>,
    count: nat,
) -> Verdict
    decreases count,
{
    if count == 0 {
        Verdict::Accepted
    } else {
        match batch_verdict_of::<V>(public_keys, messages, signatures, (count - 1) as nat) {
            Verdict::Accepted => V::verdict(
                public_keys[count - 1],
                messages[count - 1],
                signatures[count - 1],
            ),
            stopped => stopped,
        }
    }
}

/// A verdict that is not acceptance stays as it is when more signatures
/// follow.
proof fn lemma_batch_of_stops<V: SignatureVerifier>(
    public_keys: Seq<Seq<u8>>,
    messages: Seq<Seq<u8>>,
    signatures: Seq<Seq<u8>>,
    at: nat,
    later: nat,
)
    requires
        at <= later,
        !(batch_verdict_of::<V>(public_keys, messages, signatures, at) is Accepted),
    ensures
        batch_verdict_of::<V>(public_keys, messages, signatures, later) == batch_verdict_of::<V>(
            public_keys,
            messages,
            signatures,
            at,
        ),
    decreases later,
{
    if at < later {
        lemma_batch_of_stops::<V>(public_keys, messages, signatures, at, (later - 1) as nat);
    }
}

/// Checks the signatures of a transaction with the hasher and the verifier
/// of the caller's choice: each signature under the signer at the same
/// place, all over the digest of the signing preimage. Lists of different
/// lengths give the error `InvalidSignature`.
pub fn validate_signatures_with<H: Hasher, V: SignatureVerifier>(
    message_data: &[u8],
    signatures: &[&[u8; 64]],
    signers: &[&[u8; 32]],
    recent_blockhash: &[u8; 32],
) -> (result: Result<bool, TerminatorError>)
    ensures
        signatures@.len() != signers@.len() ==> fails_with(result, ErrorView::InvalidSignature),
        signatures@.len() == signers@.len() ==> tells(
            result,
            batch_verdict_of::<V>(
                byte_strings32(signers@),
                repeated(
                    H::digest(signing_preimage(message_data@, recent_blockhash@)),
                    signers@.len(),
                ),
                byte_strings64(signatures@),
                signers@.len(),
            ),
        ),
{
    if signatures.len() != signers.len() {
        return Err(TerminatorError::InvalidSignature);
    }
    let preimage = SolanaCrypto::message_preimage(message_data, recent_blockhash);
    let message_hash = H::hash(preimage.as_slice());
    let count = signatures.len();
    let ghost keys = byte_strings32(signers@);
    let ghost messages = repeated(message_hash@, count as nat);
    let ghost sigs = byte_strings64(signatures@);
    let mut i: usize = 0;
    while i < count
        invariant
            i <= count,
            count == signatures@.len(),
            count == signers@.len(),
            keys == byte_strings32(signers@),
            messages == repeated(message_hash@, count as nat),
            message_hash@ == H::digest(signing_preimage(message_data@, recent_blockhash@)),
            sigs == byte_strings64(signatures@),
            batch_verdict_of::<V>(keys, messages, sigs, i as nat) is Accepted,
        decreases count - i,
    {
        let checked = V::verify(signatures[i], message_hash.as_slice(), signers[i]);
        match checked {
            Ok(true) => {},
            Ok(false) => {
                proof {
                    lemma_batch_of_stops::<V>(keys, messages, sigs, (i + 1) as nat, count as nat);
                }
                return Ok(false);
            },
            Err(e) => {
                proof {
                    lemma_batch_of_stops::<V>(keys, messages, sigs, (i + 1) as nat, count as nat);
                }
                return Err(e);
            },
        }
        i += 1;
    }
    Ok(true)
}

} // verus!
