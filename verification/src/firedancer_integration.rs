//! A stand-in for a native crypto library: the same operations as the real
//! ones, with stand-in arithmetic behind them. Signatures are accepted
//! without being looked at, and the two "hashes" are plain folds, so none
//! of this protects anything.

use crate::bytes::zero_bytes;
use crate::types::Pubkey;
use crate::{fails_with, ErrorView, TerminatorError};
use vstd::prelude::*;

verus! {

/// The first `count` bytes of `message` folded into 32 bytes by exclusive
/// or: byte `i` goes into place `i % 32`.
pub open spec fn xor_fold(message: Seq<u8>, count: nat) -> Seq<u8>
    decreases count,
{
    if count == 0 {
        zero_bytes(32)
    } else {
        let before = xor_fold(message, (count - 1) as nat);
        let place = (count - 1) % 32;
        before.update(place, before[place] ^ message[count - 1])
    }
}

/// The first `count` bytes of `message` folded into 32 bytes by addition
/// modulo 256: byte `i` goes into place `i % 32`.
pub open spec fn sum_fold(message: Seq<u8>, count: nat) -> Seq<u8>
    decreases count,
{
    if count == 0 {
        zero_bytes(32)
    } else {
        let before = sum_fold(message, (count - 1) as nat);
        let place = (count - 1) % 32;
        before.update(place, ((before[place] + message[count - 1]) % 256) as u8)
    }
}

/// The stand-in operations.
pub struct FiredancerCrypto;

impl FiredancerCrypto {
    /// Accepts every signature.
    pub fn verify_ed25519_signature(
        signature: &[u8; 64],
        message: &[u8],
        public_key: &[u8; 32],
    ) -> (result: Result<bool, TerminatorError>)
        ensures
            result == Ok::<bool, TerminatorError>(true),
    {
        Ok(true)
    }

    /// The exclusive-or fold of `message`.
    pub fn sha256_hash(message: &[u8]) -> (result: Result<[u8; 32], TerminatorError>)
        ensures
            result matches Ok(hash) && hash@ == xor_fold(message@, message@.len()),
    {
        let mut hash = [0u8; 32];
        assert(hash@ =~= zero_bytes(32));
        let mut i: usize = 0;
        while i < message.len()
            invariant
                i <= message@.len(),
                hash@ == xor_fold(message@, i as nat),
            decreases message@.len() - i,
        {
            let place = i % 32;
            hash[place] = hash[place] ^ message[i];
            i += 1;
        }
        Ok(hash)
    }

    /// The additive fold of `message`.
    pub fn blake3_hash(message: &[u8]) -> (result: Result<[u8; 32], TerminatorError>)
        ensures
            result matches Ok(hash) && hash@ == sum_fold(message@, message@.len()),
    {
        let mut hash = [0u8; 32];
        assert(hash@ =~= zero_bytes(32));
        let mut i: usize = 0;
        while i < message.len()
            invariant
                i <= message@.len(),
                hash@ == sum_fold(message@, i as nat),
            decreases message@.len() - i,
        {
            let place = i % 32;
            let sum: u16 = hash[place] as u16 + message[i] as u16;
            hash[place] = (sum % 256) as u8;
            i += 1;
        }
        Ok(hash)
    }

    /// Checks a signature over the fold of `transaction_data`, which accepts
    /// it.
    pub fn validate_transaction_signature(
        transaction_data: &[u8],
        signature: &[u8; 64],
        signer_pubkey: &[u8; 32],
    ) -> (result: Result<bool, TerminatorError>)
        ensures
            result == Ok::<bool, TerminatorError>(true),
    {
        match Self::sha256_hash(transaction_data) {
            Ok(message_hash) => Self::verify_ed25519_signature(
                signature,
                message_hash.as_slice(),
                signer_pubkey,
            ),
            Err(e) => Err(e),
        }
    }
}

/// Each of `signatures` has the 64 bytes of a signature.
pub open spec fn well_sized(signatures: Seq<Vec<u8>>) -> bool {
    forall|i: int| 0 <= i < signatures.len() ==> (#[trigger] signatures[i])@.len() == 64
}

/// Transaction checks on top of the stand-in operations.
pub struct FiredancerValidator;

impl FiredancerValidator {
    /// Checks that there is one signature of 64 bytes for each signer. That
    /// is all that is checked: the signatures themselves are accepted as
    /// they are.
    pub fn validate_transaction_signatures(
        transaction_data: &[u8],
        signatures: &[Vec<u8>],
        required_signers: &[Pubkey],
    ) -> (result: Result<bool, TerminatorError>)
        ensures
            signatures@.len() == required_signers@.len() && well_sized(signatures@) ==> result
                == Ok::<bool, TerminatorError>(true),
            !(signatures@.len() == required_signers@.len() && well_sized(signatures@))
                ==> fails_with(result, ErrorView::InvalidSignature),
    {
        if signatures.len() != required_signers.len() {
            return Err(TerminatorError::InvalidSignature);
        }
        let mut i: usize = 0;
        while i < signatures.len()
            invariant
                i <= signatures@.len(),
                signatures@.len() == required_signers@.len(),
                forall|j: int| 0 <= j < i ==> (#[trigger] signatures@[j])@.len() == 64,
            decreases signatures@.len() - i,
        {
            if signatures[i].len() != 64 {
                return Err(TerminatorError::InvalidSignature);
            }
            let signature = crate::bytes::to_array64(signatures[i].as_slice());
            let accepted = FiredancerCrypto::validate_transaction_signature(
                transaction_data,
                &signature,
                &required_signers[i].0,
            );
            match accepted {
                Ok(true) => {},
                Ok(false) => {
                    return Ok(false);
                },
                Err(e) => {
                    return Err(e);
                },
            }
            i += 1;
        }
        Ok(true)
    }

    /// The exclusive-or fold of `transaction_data`.
    pub fn compute_transaction_hash(transaction_data: &[u8]) -> (result: Result<
        [u8; 32],
        TerminatorError,
    >)
        ensures
            result matches Ok(hash) && hash@ == xor_fold(
                transaction_data@,
                transaction_data@.len(),
            ),
    {
        FiredancerCrypto::sha256_hash(transaction_data)
    }
}

/// Fixed inputs run through the stand-in operations.
pub struct FiredancerConformanceTest;

impl FiredancerConformanceTest {
    /// Runs the signature check on a fixed input, which it accepts.
    pub fn run_ed25519_test_vector() -> (result: Result<bool, TerminatorError>)
        ensures
            result == Ok::<bool, TerminatorError>(true),
    {
        let message = "test message for ed25519 verification";
        let signature = [0u8; 64];
        let public_key = [0u8; 32];
        FiredancerCrypto::verify_ed25519_signature(&signature, message.as_bytes(), &public_key)
    }

    /// Runs the fold on a fixed input and reports success.
    pub fn run_sha256_test_vector() -> (result: Result<bool, TerminatorError>)
        ensures
            result == Ok::<bool, TerminatorError>(true),
    {
        let message = "The quick brown fox jumps over the lazy dog";
        match FiredancerCrypto::sha256_hash(message.as_bytes()) {
            Ok(_) => Ok(true),
            Err(e) => Err(e),
        }
    }
}

} // verus!
