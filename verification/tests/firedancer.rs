use ed25519_dalek::{Signer, SigningKey};
use terminator_dancer::capability::{validate_signatures_with, Hasher, SignatureVerifier};
use terminator_dancer::firedancer_integration::{
    FiredancerConformanceTest, FiredancerCrypto, FiredancerValidator,
};
use terminator_dancer::types::Pubkey;
use terminator_dancer::SolanaCrypto;
use terminator_dancer::TerminatorError;

#[test]
fn test_firedancer_ed25519() {
    let signature = [0u8; 64];
    let message = b"test message";
    let pubkey = [0u8; 32];

    let result = FiredancerCrypto::verify_ed25519_signature(&signature, message, &pubkey);
    assert!(result.is_ok());
}

#[test]
fn test_firedancer_sha256() {
    let message = b"hello world";
    let hash = FiredancerCrypto::sha256_hash(message);
    assert!(hash.is_ok());
    assert_eq!(hash.unwrap().len(), 32);
}

#[test]
fn test_conformance_vectors() {
    assert!(FiredancerConformanceTest::run_ed25519_test_vector().is_ok());
    assert!(FiredancerConformanceTest::run_sha256_test_vector().is_ok());
}

#[test]
fn placeholder_accepts_every_signature() {
    assert!(FiredancerCrypto::verify_ed25519_signature(&[9u8; 64], b"x", &[2u8; 32]).unwrap());
    assert!(FiredancerCrypto::validate_transaction_signature(b"tx", &[0u8; 64], &[0u8; 32])
        .unwrap());
    assert!(FiredancerConformanceTest::run_ed25519_test_vector().unwrap());
    assert!(FiredancerConformanceTest::run_sha256_test_vector().unwrap());
}

#[test]
fn xor_fold_of_known_inputs() {
    assert_eq!(FiredancerCrypto::sha256_hash(b"").unwrap(), [0u8; 32]);
    let mut expected = [0u8; 32];
    expected[0] = 1;
    expected[1] = 2;
    assert_eq!(FiredancerCrypto::sha256_hash(&[1, 2]).unwrap(), expected);
    // Byte 32 folds back onto place 0.
    let mut long = [0u8; 33];
    long[0] = 0b1010;
    long[32] = 0b0110;
    let mut folded = [0u8; 32];
    folded[0] = 0b1100;
    assert_eq!(FiredancerCrypto::sha256_hash(&long).unwrap(), folded);
    assert_eq!(FiredancerValidator::compute_transaction_hash(&long).unwrap(), folded);
}

#[test]
fn additive_fold_wraps_at_256() {
    assert_eq!(FiredancerCrypto::blake3_hash(b"").unwrap(), [0u8; 32]);
    let mut long = [0u8; 34];
    long[0] = 200;
    long[1] = 7;
    long[32] = 100;
    long[33] = 1;
    let mut folded = [0u8; 32];
    folded[0] = 44;
    folded[1] = 8;
    assert_eq!(FiredancerCrypto::blake3_hash(&long).unwrap(), folded);
}

#[test]
fn validator_wants_one_signature_of_64_bytes_for_each_signer() {
    let signers = [Pubkey::new([1u8; 32]), Pubkey::new([2u8; 32])];
    let good = vec![vec![0u8; 64], vec![1u8; 64]];
    assert!(FiredancerValidator::validate_transaction_signatures(b"tx", &good, &signers).unwrap());
    let short = vec![vec![0u8; 64], vec![1u8; 63]];
    assert!(matches!(
        FiredancerValidator::validate_transaction_signatures(b"tx", &short, &signers),
        Err(TerminatorError::InvalidSignature)
    ));
    let fewer = vec![vec![0u8; 64]];
    assert!(matches!(
        FiredancerValidator::validate_transaction_signatures(b"tx", &fewer, &signers),
        Err(TerminatorError::InvalidSignature)
    ));
    assert!(FiredancerValidator::validate_transaction_signatures(b"tx", &[], &[]).unwrap());
}

#[test]
fn capabilities_can_be_swapped() {
    let data = [1u8, 2, 3];
    let blockhash = [4u8; 32];
    let key = SigningKey::from_bytes(&[7u8; 32]);
    let public_key = key.verifying_key().to_bytes();
    let preimage = SolanaCrypto::message_preimage(&data, &blockhash);

    assert_eq!(<SolanaCrypto as Hasher>::hash(&preimage), SolanaCrypto::sha256_hash(&preimage));
    assert_eq!(
        <FiredancerCrypto as Hasher>::hash(&preimage),
        FiredancerCrypto::sha256_hash(&preimage).unwrap()
    );

    let over_sha = key.sign(&SolanaCrypto::sha256_hash(&preimage)).to_bytes();
    let over_fold = key.sign(&FiredancerCrypto::sha256_hash(&preimage).unwrap()).to_bytes();
    assert!(<SolanaCrypto as SignatureVerifier>::verify(
        &over_sha,
        &SolanaCrypto::sha256_hash(&preimage),
        &public_key
    )
    .unwrap());

    let real = validate_signatures_with::<SolanaCrypto, SolanaCrypto>;
    assert!(real(&data, &[&over_sha], &[&public_key], &blockhash).unwrap());
    assert!(!real(&data, &[&over_fold], &[&public_key], &blockhash).unwrap());
    let folded = validate_signatures_with::<FiredancerCrypto, SolanaCrypto>;
    assert!(folded(&data, &[&over_fold], &[&public_key], &blockhash).unwrap());
    assert!(!folded(&data, &[&over_sha], &[&public_key], &blockhash).unwrap());
    let lenient = validate_signatures_with::<SolanaCrypto, FiredancerCrypto>;
    assert!(lenient(&data, &[&[0u8; 64]], &[&[0u8; 32]], &blockhash).unwrap());
    assert!(matches!(
        lenient(&data, &[&[0u8; 64]], &[], &blockhash),
        Err(TerminatorError::InvalidSignature)
    ));
}
