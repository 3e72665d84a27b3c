//! Signature verification, hashing and program-derived addresses.
//!
//! The primitives themselves come from `sha2`, `blake3` and `ed25519-dalek`.
//! Each is reached through one small function whose contract is taken on
//! trust and names the primitive's result; everything built on them is
//! verified against those names.

use crate::bytes::append_bytes;
use crate::{fails_with, ErrorView, TerminatorError};
use ed25519_dalek::{Signature, Verifier, VerifyingKey};
use sha2::{Digest, Sha256};
use vstd::prelude::*;

verus! {

/// The SHA-256 digest of `data`.
pub uninterp spec fn sha256(data: Seq<u8>) -> Seq<u8>;

/// The BLAKE3 digest of `data`.
pub uninterp spec fn blake3(data: Seq<u8>) -> Seq<u8>;

/// Whether `bytes` is the compressed form of a point of the Ed25519 curve,
/// which is what makes 32 bytes usable as a public key.
pub uninterp spec fn ed25519_point(bytes: Seq<u8>) -> bool;

/// Whether `signature` is accepted as an Ed25519 signature of `message`
/// under `public_key`.
pub uninterp spec fn ed25519_accepts(
    public_key: Seq<u8>,
    message: Seq<u8>,
    signature: Seq<u8>,
) -> bool;

/// Calls `Sha256::digest` of `sha2`. Trusted: the array that comes back is
/// the SHA-256 digest of `data`, a function of `data` alone.
#[verifier::external_body]
fn sha256_digest(data: &[u8]) -> (digest: [u8; 32])
    ensures
        digest@ == sha256(data@),
{
    Sha256::digest(data).into()
}

/// Calls `blake3::hash`. Trusted: the array that comes back is the 32-byte
/// BLAKE3 digest of `data`, a function of `data` alone.
#[verifier::external_body]
fn blake3_digest(data: &[u8]) -> (digest: [u8; 32])
    ensures
        digest@ == blake3(data@),
{
    blake3::hash(data).into()
}

/// Calls `VerifyingKey::from_bytes` of `ed25519-dalek` and says whether it
/// gave a key. Trusted: it gives one exactly when `bytes` decompresses to a
/// curve point, which depends on `bytes` alone.
#[verifier::external_body]
fn decompresses(bytes: &[u8; 32]) -> (valid: bool)
    ensures
        valid == ed25519_point(bytes@),
{
    VerifyingKey::from_bytes(bytes).is_ok()
}

/// Calls `Verifier::verify` of `ed25519-dalek` on the key that
/// `VerifyingKey::from_bytes` makes of `public_key` and the signature that
/// `Signature::from_bytes` makes of `signature`; bytes that are no key count
/// as not accepted. Trusted: the answer depends on the three byte strings
/// alone.
#[verifier::external_body]
fn verifies(public_key: &[u8; 32], message: &[u8], signature: &[u8; 64]) -> (accepted: bool)
    ensures
        accepted == ed25519_accepts(public_key@, message@, signature@),
{
    match VerifyingKey::from_bytes(public_key) {
        Ok(key) => key.verify(message, &Signature::from_bytes(signature)).is_ok(),
        Err(_) => false,
    }
}

/// The bytes that open every message that is signed: `solana-tx:`.
pub const MESSAGE_PREFIX: [u8; 10] = [115, 111, 108, 97, 110, 97, 45, 116, 120, 58];

/// The bytes that close every preimage of a derived address:
/// `ProgramDerivedAddress`.
pub const PDA_MARKER: [u8; 21] = [
    80, 114, 111, 103, 114, 97, 109, 68, 101, 114, 105, 118, 101, 100, 65, 100, 100, 114, 101,
    115, 115,
];

/// The bytes whose digest is signed: the prefix, the transaction data, and
/// the blockhash, in that order.
pub open spec fn signing_preimage(transaction_data: Seq<u8>, recent_blockhash: Seq<u8>) -> Seq<
    u8,
> {
    MESSAGE_PREFIX@ + transaction_data + recent_blockhash
}

/// What one check of a signature says.
pub enum Verdict {
    /// The signature is valid under the key.
    Accepted,
    /// The key is a key, and the signature is not valid under it.
    Rejected,
    /// The key bytes are no key.
    BadKey,
}

/// The verdict on one signature.
pub open spec fn verdict(public_key: Seq<u8>, message: Seq<u8>, signature: Seq<u8>) -> Verdict {
    if !ed25519_point(public_key) {
        Verdict::BadKey
    } else if ed25519_accepts(public_key, message, signature) {
        Verdict::Accepted
    } else {
        Verdict::Rejected
    }
}

/// The verdict on the first `count` signatures, checked in order: that of
/// the first one that is not accepted, or acceptance of all.
pub open spec fn batch_verdict(
    public_keys: Seq<Seq<u8>>,
    messages: Seq<Seq<u8>>,
    signatures: Seq<Seq<u8>>,
    count: nat,
) -> Verdict
    decreases count,
{
    if count == 0 {
        Verdict::Accepted
    } else {
        match batch_verdict(public_keys, messages, signatures, (count - 1) as nat) {
            Verdict::Accepted => verdict(
                public_keys[count - 1],
                messages[count - 1],
                signatures[count - 1],
            ),
            stopped => stopped,
        }
    }
}

/// A result says what a verdict holds: acceptance as `true`, rejection as
/// `false`, and key bytes that are no key as the error `InvalidSignature`.
pub open spec fn tells(result: Result<bool, TerminatorError>, verdict: Verdict) -> bool {
    match verdict {
        Verdict::Accepted => result == Ok::<bool, TerminatorError>(true),
        Verdict::Rejected => result == Ok::<bool, TerminatorError>(false),
        Verdict::BadKey => fails_with(result, ErrorView::InvalidSignature),
    }
}

/// A batch is accepted exactly when each of its signatures is accepted by
/// itself: checking in order and stopping early changes nothing.
pub proof fn lemma_batch_accepts_each(
    public_keys: Seq<Seq<u8>>,
    messages: Seq<Seq<u8>>,
    signatures: Seq<Seq<u8>>,
    count: nat,
)
    ensures
        batch_verdict(public_keys, messages, signatures, count) is Accepted <==> forall|i: int|
            0 <= i < count ==> #[trigger] verdict(public_keys[i], messages[i], signatures[i])
                is Accepted,
    decreases count,
{
    if count > 0 {
        lemma_batch_accepts_each(public_keys, messages, signatures, (count - 1) as nat);
    }
}

/// A verdict that is not acceptance stays as it is when more signatures
/// follow.
proof fn lemma_batch_stops(
    public_keys: Seq<Seq<u8>>,
    messages: Seq<Seq<u8>>,
    signatures: Seq<Seq<u8>>,
    at: nat,
    later: nat,
)
    requires
        at <= later,
        !(batch_verdict(public_keys, messages, signatures, at) is Accepted),
    ensures
        batch_verdict(public_keys, messages, signatures, later) == batch_verdict(
            public_keys,
            messages,
            signatures,
            at,
        ),
    decreases later,
{
    if at < later {
        lemma_batch_stops(public_keys, messages, signatures, at, (later - 1) as nat);
    }
}

/// The byte strings that `items` refer to.
pub open spec fn byte_strings(items: Seq<&[u8]>) -> Seq<Seq<u8>> {
    Seq::new(items.len(), |i: int| items[i]@)
}

/// The byte strings of the 32-byte arrays that `items` refer to.
pub open spec fn byte_strings32(items: Seq<&[u8; 32]>) -> Seq<Seq<u8>> {
    Seq::new(items.len(), |i: int| items[i]@)
}

/// The byte strings of the 64-byte arrays that `items` refer to.
pub open spec fn byte_strings64(items: Seq<&[u8; 64]>) -> Seq<Seq<u8>> {
    Seq::new(items.len(), |i: int| items[i]@)
}

/// `count` times the same byte string.
pub open spec fn repeated(bytes: Seq<u8>, count: nat) -> Seq<Seq<u8>> {
    Seq::new(count, |i: int| bytes)
}

/// The first `count` of `seeds`, one after the other.
pub open spec fn joined_seeds(seeds: Seq<Seq<u8>>, count: nat) -> Seq<u8>
    decreases count,
{
    if count == 0 {
        Seq::empty()
    } else {
        joined_seeds(seeds, (count - 1) as nat) + seeds[count - 1]
    }
}

/// The bytes that are hashed for one bump: the seeds, the bump, the program
/// address, and the marker.
pub open spec fn pda_preimage(seeds: Seq<Seq<u8>>, bump: u8, program_id: Seq<u8>) -> Seq<u8> {
    joined_seeds(seeds, seeds.len()) + seq![bump] + program_id + PDA_MARKER@
}

/// The address that one bump gives.
pub open spec fn pda_candidate(seeds: Seq<Seq<u8>>, bump: u8, program_id: Seq<u8>) -> Seq<u8> {
    sha256(pda_preimage(seeds, bump, program_id))
}

/// `bump` is the one that derivation settles on: its address is no curve
/// point, and that of every greater bump is one.
pub open spec fn is_derived_bump(seeds: Seq<Seq<u8>>, program_id: Seq<u8>, bump: u8) -> bool {
    &&& !ed25519_point(pda_candidate(seeds, bump, program_id))
    &&& forall|other: u8|
        other > bump ==> ed25519_point(#[trigger] pda_candidate(seeds, other, program_id))
}

/// `result` is what derivation gives for `seeds` and `program_id`: the
/// address and bump that it settles on, or the failure that comes when the
/// address of every bump is a curve point.
pub open spec fn derived(
    seeds: Seq<Seq<u8>>,
    program_id: Seq<u8>,
    result: Result<([u8; 32], u8), TerminatorError>,
) -> bool {
    match result {
        Ok((address, bump)) => {
            &&& address@ == pda_candidate(seeds, bump, program_id)
            &&& is_derived_bump(seeds, program_id, bump)
        },
        Err(e) => {
            &&& e@ == ErrorView::ProgramError("Unable to find valid PDA"@)
            &&& forall|bump: u8| ed25519_point(#[trigger] pda_candidate(seeds, bump, program_id))
        },
    }
}

/// Hashing is a function: two digests of the same data are the same.
pub proof fn lemma_hash_is_determined(data: Seq<u8>, first: [u8; 32], second: [u8; 32])
    requires
        first@ == sha256(data),
        second@ == sha256(data),
    ensures
        first@ == second@,
{
}

/// Derivation is a function: whatever it gives twice for the same seeds and
/// program is the same address and bump, or twice the same failure.
pub proof fn lemma_derivation_is_determined(
    seeds: Seq<Seq<u8>>,
    program_id: Seq<u8>,
    first: Result<([u8; 32], u8), TerminatorError>,
    second: Result<([u8; 32], u8), TerminatorError>,
)
    requires
        derived(seeds, program_id, first),
        derived(seeds, program_id, second),
    ensures
        match (first, second) {
            (Ok((address1, bump1)), Ok((address2, bump2))) => address1@ == address2@ && bump1
                == bump2,
            (Err(e1), Err(e2)) => e1@ == e2@,
            _ => false,
        },
{
    match (first, second) {
        (Ok((address1, bump1)), Ok((address2, bump2))) => {
            if bump1 < bump2 {
                assert(ed25519_point(pda_candidate(seeds, bump2, program_id)));
            } else if bump2 < bump1 {
                assert(ed25519_point(pda_candidate(seeds, bump1, program_id)));
            }
        },
        (Ok((address1, bump1)), Err(e2)) => {
            assert(ed25519_point(pda_candidate(seeds, bump1, program_id)));
        },
        (Err(e1), Ok((address2, bump2))) => {
            assert(ed25519_point(pda_candidate(seeds, bump2, program_id)));
        },
        (Err(e1), Err(e2)) => {},
    }
}

/// The cryptographic operations of the ledger.
pub struct SolanaCrypto;

impl SolanaCrypto {
    /// What a check reports, given whether the key bytes are a key and
    /// whether the signature was accepted: the error `InvalidSignature` for
    /// bytes that are no key, and the acceptance otherwise.
    pub fn report(key_valid: bool, accepted: bool) -> (result: Result<bool, TerminatorError>)
        ensures
            !key_valid ==> fails_with(result, ErrorView::InvalidSignature),
            key_valid ==> result == Ok::<bool, TerminatorError>(accepted),
    {
        if !key_valid {
            Err(TerminatorError::InvalidSignature)
        } else {
            Ok(accepted)
        }
    }

    /// Checks an Ed25519 signature. Key bytes that are no curve point give
    /// the error `InvalidSignature`; otherwise the result says whether the
    /// signature is valid for `message` under the key.
    pub fn verify_ed25519_signature(
        signature_bytes: &[u8; 64],
        message: &[u8],
        public_key_bytes: &[u8; 32],
    ) -> (result: Result<bool, TerminatorError>)
        ensures
            tells(result, verdict(public_key_bytes@, message@, signature_bytes@)),
    {
        if !decompresses(public_key_bytes) {
            return Self::report(false, false);
        }
        Self::report(true, verifies(public_key_bytes, message, signature_bytes))
    }

    /// The SHA-256 digest of `data`.
    pub fn sha256_hash(data: &[u8]) -> (digest: [u8; 32])
        ensures
            digest@ == sha256(data@),
    {
        sha256_digest(data)
    }

    /// The BLAKE3 digest of `data`.
    pub fn blake3_hash(data: &[u8]) -> (digest: [u8; 32])
        ensures
            digest@ == blake3(data@),
    {
        blake3_digest(data)
    }

    /// The bytes whose digest is signed for a transaction.
    pub fn message_preimage(transaction_data: &[u8], recent_blockhash: &[u8; 32]) -> (bytes: Vec<
        u8,
    >)
        ensures
            bytes@ == signing_preimage(transaction_data@, recent_blockhash@),
    {
        let mut bytes: Vec<u8> = Vec::new();
        append_bytes(&mut bytes, MESSAGE_PREFIX.as_slice());
        append_bytes(&mut bytes, transaction_data);
        append_bytes(&mut bytes, recent_blockhash.as_slice());
        assert(bytes@ =~= signing_preimage(transaction_data@, recent_blockhash@));
        bytes
    }

    /// The digest that the signatures of a transaction are made over: that
    /// of the prefix, the transaction data and the blockhash, in that order.
    pub fn create_transaction_message_hash(
        transaction_data: &[u8],
        recent_blockhash: &[u8; 32],
    ) -> (digest: [u8; 32])
        ensures
            digest@ == sha256(signing_preimage(transaction_data@, recent_blockhash@)),
    {
        let bytes = Self::message_preimage(transaction_data, recent_blockhash);
        sha256_digest(bytes.as_slice())
    }

    /// Checks the signatures of a transaction, each under the signer at the
    /// same place, all over the message hash. Lists of different lengths
    /// give the error `InvalidSignature`.
    pub fn validate_transaction_signatures(
        message_data: &[u8],
        signatures: &[&[u8; 64]],
        signers: &[&[u8; 32]],
        recent_blockhash: &[u8; 32],
    ) -> (result: Result<bool, TerminatorError>)
        ensures
            signatures@.len() != signers@.len() ==> fails_with(
                result,
                ErrorView::InvalidSignature,
            ),
            signatures@.len() == signers@.len() ==> tells(
                result,
                batch_verdict(
                    byte_strings32(signers@),
                    repeated(
                        sha256(signing_preimage(message_data@, recent_blockhash@)),
                        signers@.len(),
                    ),
                    byte_strings64(signatures@),
                    signers@.len(),
                ),
            ),
    {
        if signatures.len() != signers.len() {
            return Err(TerminatorError::InvalidSignature);
        }
        let message_hash = Self::create_transaction_message_hash(message_data, recent_blockhash);
        let count = signatures.len();
        let ghost keys = byte_strings32(signers@);
        let ghost messages = repeated(message_hash@, count as nat);
        let ghost sigs = byte_strings64(signatures@);
        let mut i: usize = 0;
        while i < count
            invariant
                i <= count,
                count == signatures@.len(),
                count == signers@.len(),
                keys == byte_strings32(signers@),
                messages == repeated(message_hash@, count as nat),
                message_hash@ == sha256(signing_preimage(message_data@, recent_blockhash@)),
                sigs == byte_strings64(signatures@),
                batch_verdict(keys, messages, sigs, i as nat) is Accepted,
            decreases count - i,
        {
            let checked = Self::verify_ed25519_signature(
                signatures[i],
                message_hash.as_slice(),
                signers[i],
            );
            match checked {
                Ok(true) => {},
                Ok(false) => {
                    proof {
                        lemma_batch_stops(keys, messages, sigs, (i + 1) as nat, count as nat);
                    }
                    return Ok(false);
                },
                Err(e) => {
                    proof {
                        lemma_batch_stops(keys, messages, sigs, (i + 1) as nat, count as nat);
                    }
                    return Err(e);
                },
            }
            i += 1;
        }
        Ok(true)
    }
}

/// Operations on many inputs at once.
pub struct FastCrypto;

impl FastCrypto {
    /// Checks each signature over the message and under the key at the same
    /// place, in order. Lists of different lengths give the error
    /// `InvalidSignature`.
    pub fn batch_verify_signatures(
        signatures: &[&[u8; 64]],
        messages: &[&[u8]],
        public_keys: &[&[u8; 32]],
    ) -> (result: Result<bool, TerminatorError>)
        ensures
            (signatures@.len() != messages@.len() || messages@.len() != public_keys@.len())
                ==> fails_with(result, ErrorView::InvalidSignature),
            (signatures@.len() == messages@.len() && messages@.len() == public_keys@.len())
                ==> tells(
                result,
                batch_verdict(
                    byte_strings32(public_keys@),
                    byte_strings(messages@),
                    byte_strings64(signatures@),
                    signatures@.len(),
                ),
            ),
    {
        if signatures.len() != messages.len() || messages.len() != public_keys.len() {
            return Err(TerminatorError::InvalidSignature);
        }
        let count = signatures.len();
        let ghost keys = byte_strings32(public_keys@);
        let ghost texts = byte_strings(messages@);
        let ghost sigs = byte_strings64(signatures@);
        let mut i: usize = 0;
        while i < count
            invariant
                i <= count,
                count == signatures@.len(),
                count == messages@.len(),
                count == public_keys@.len(),
                keys == byte_strings32(public_keys@),
                texts == byte_strings(messages@),
                sigs == byte_strings64(signatures@),
                batch_verdict(keys, texts, sigs, i as nat) is Accepted,
            decreases count - i,
        {
            let checked = SolanaCrypto::verify_ed25519_signature(
                signatures[i],
                messages[i],
                public_keys[i],
            );
            match checked {
                Ok(true) => {},
                Ok(false) => {
                    proof {
                        lemma_batch_stops(keys, texts, sigs, (i + 1) as nat, count as nat);
                    }
                    return Ok(false);
                },
                Err(e) => {
                    proof {
                        lemma_batch_stops(keys, texts, sigs, (i + 1) as nat, count as nat);
                    }
                    return Err(e);
                },
            }
            i += 1;
        }
        Ok(true)
    }

    /// The SHA-256 digest of each message, in order.
    pub fn fast_hash_batch(messages: &[&[u8]]) -> (digests: Vec<[u8; 32]>)
        ensures
            digests@.len() == messages@.len(),
            forall|i: int| 0 <= i < messages@.len() ==> digests@[i]@ == sha256(messages@[i]@),
    {
        let mut digests: Vec<[u8; 32]> = Vec::new();
        let mut i: usize = 0;
        while i < messages.len()
            invariant
                i <= messages@.len(),
                digests@.len() == i,
                forall|j: int| 0 <= j < i ==> digests@[j]@ == sha256(messages@[j]@),
            decreases messages@.len() - i,
        {
            digests.push(SolanaCrypto::sha256_hash(messages[i]));
            i += 1;
        }
        digests
    }
}

/// Derivation of addresses that belong to a program and to no key.
pub struct AddressDerivation;

impl AddressDerivation {
    /// The bytes that are hashed for one bump.
    pub fn preimage(seeds: &[&[u8]], bump: u8, program_id: &[u8; 32]) -> (bytes: Vec<u8>)
        ensures
            bytes@ == pda_preimage(byte_strings(seeds@), bump, program_id@),
    {
        let ghost parts = byte_strings(seeds@);
        let mut bytes: Vec<u8> = Vec::new();
        let mut i: usize = 0;
        while i < seeds.len()
            invariant
                i <= seeds@.len(),
                parts == byte_strings(seeds@),
                bytes@ == joined_seeds(parts, i as nat),
            decreases seeds@.len() - i,
        {
            append_bytes(&mut bytes, seeds[i]);
            i += 1;
        }
        bytes.push(bump);
        append_bytes(&mut bytes, program_id.as_slice());
        append_bytes(&mut bytes, PDA_MARKER.as_slice());
        assert(bytes@ =~= pda_preimage(parts, bump, program_id@));
        bytes
    }

    /// What derivation reports once the bumps have been tried: the address
    /// and bump that were found, or a `ProgramError` where none was.
    pub fn conclude(found: Option<([u8; 32], u8)>) -> (result: Result<
        ([u8; 32], u8),
        TerminatorError,
    >)
        ensures
            match found {
                Some(pair) => result == Ok::<([u8; 32], u8), TerminatorError>(pair),
                None => fails_with(
                    result,
                    ErrorView::ProgramError("Unable to find valid PDA"@),
                ),
            },
    {
        match found {
            Some(pair) => Ok(pair),
            None => Err(
                TerminatorError::ProgramError(String::from_str("Unable to find valid PDA")),
            ),
        }
    }

    /// Derives the address of a program for `seeds`: the bumps are tried
    /// from 255 down to 0, and the first whose digest is no curve point
    /// gives the address. The result is never a usable public key. If every
    /// bump gives a curve point the derivation fails with a `ProgramError`.
    pub fn derive_program_address(seeds: &[&[u8]], program_id: &[u8; 32]) -> (result: Result<
        ([u8; 32], u8),
        TerminatorError,
    >)
        ensures
            derived(byte_strings(seeds@), program_id@, result),
            result matches Ok(found) ==> !ed25519_point(found.0@),
    {
        let ghost parts = byte_strings(seeds@);
        let mut bump: u8 = 255;
        loop
            invariant_except_break
                parts == byte_strings(seeds@),
                forall|other: u8|
                    other > bump ==> ed25519_point(
                        #[trigger] pda_candidate(parts, other, program_id@),
                    ),
            ensures
                forall|other: u8|
                    ed25519_point(#[trigger] pda_candidate(parts, other, program_id@)),
            decreases bump,
        {
            let bytes = Self::preimage(seeds, bump, program_id);
            let candidate = sha256_digest(bytes.as_slice());
            if !decompresses(&candidate) {
                return Self::conclude(Some((candidate, bump)));
            }
            if bump == 0 {
                break;
            }
            bump -= 1;
        }
        Self::conclude(None)
    }

    /// The address that `derive_program_address` gives, without its bump.
    pub fn find_program_address(seeds: &[&[u8]], program_id: &[u8; 32]) -> (result: Result<
        [u8; 32],
        TerminatorError,
    >)
        ensures
            match result {
                Ok(address) => exists|bump: u8|
                    address@ == #[trigger] pda_candidate(byte_strings(seeds@), bump, program_id@)
                        && is_derived_bump(byte_strings(seeds@), program_id@, bump),
                Err(e) => derived(
                    byte_strings(seeds@),
                    program_id@,
                    Err::<([u8; 32], u8), TerminatorError>(e),
                ),
            },
            result matches Ok(address) ==> !ed25519_point(address@),
    {
        match Self::derive_program_address(seeds, program_id) {
            Ok((address, _bump)) => Ok(address),
            Err(e) => Err(e),
        }
    }
}

} // verus!
