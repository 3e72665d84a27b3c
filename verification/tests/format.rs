use serde_bytes::ByteBuf;
use terminator_dancer::solana_format::{
    CompiledInstruction, MessageHeader, SolanaFeatures, SolanaHash, SolanaMessage, SolanaPubkey,
    SolanaSignature, SolanaTransaction, SolanaTransactionParser,
};
use terminator_dancer::TerminatorError;

#[test]
fn test_pubkey_base58() {
    let pubkey = SolanaPubkey::new([1u8; 32]);
    let base58_str = pubkey.to_string();
    let parsed = SolanaPubkey::from_str(&base58_str).unwrap();
    assert_eq!(pubkey, parsed);
}

#[test]
fn test_transaction_serialization() {
    let from = SolanaPubkey::new([1u8; 32]);
    let to = SolanaPubkey::new([2u8; 32]);
    let blockhash = SolanaHash([3u8; 32]);

    let tx = SolanaTransactionParser::create_transfer_transaction(from, to, 1000000, blockhash);

    // Test serialization round trip
    let serialized = SolanaTransactionParser::serialize_transaction(&tx).unwrap();
    let deserialized = SolanaTransactionParser::parse_transaction(&serialized).unwrap();

    assert_eq!(tx.message.account_keys.len(), deserialized.message.account_keys.len());
    assert_eq!(tx.message.instructions.len(), deserialized.message.instructions.len());
}

#[test]
fn test_transaction_validation() {
    let from = SolanaPubkey::new([1u8; 32]);
    let to = SolanaPubkey::new([2u8; 32]);
    let blockhash = SolanaHash([3u8; 32]);

    let tx = SolanaTransactionParser::create_transfer_transaction(from, to, 1000000, blockhash);

    let result = SolanaTransactionParser::validate_transaction_format(&tx);
    assert!(result.is_ok(), "Valid transaction should pass validation");
}

#[test]
fn test_system_program_ids() {
    let system = SolanaPubkey::system_program();
    let token = SolanaPubkey::token_program();

    assert_eq!(system.0, [0u8; 32]);
    assert_ne!(system, token);
}

fn sample() -> SolanaTransaction {
    SolanaTransactionParser::create_transfer_transaction(
        SolanaPubkey::new([1u8; 32]),
        SolanaPubkey::new([2u8; 32]),
        1_000_000,
        SolanaHash([3u8; 32]),
    )
}

fn same(a: &SolanaTransaction, b: &SolanaTransaction) -> bool {
    let signatures = a.signatures.len() == b.signatures.len()
        && a.signatures.iter().zip(&b.signatures).all(|(x, y)| x.0 == y.0);
    let (m, n) = (&a.message, &b.message);
    let header = m.header.num_required_signatures == n.header.num_required_signatures
        && m.header.num_readonly_signed_accounts == n.header.num_readonly_signed_accounts
        && m.header.num_readonly_unsigned_accounts == n.header.num_readonly_unsigned_accounts;
    let instructions = m.instructions.len() == n.instructions.len()
        && m.instructions.iter().zip(&n.instructions).all(|(x, y)| {
            x.program_id_index == y.program_id_index && x.accounts == y.accounts && x.data == y.data
        });
    signatures
        && header
        && m.account_keys == n.account_keys
        && m.recent_blockhash.0 == n.recent_blockhash.0
        && instructions
}

fn reason_of(result: Result<(), TerminatorError>) -> String {
    match result {
        Err(TerminatorError::TransactionExecutionFailed(reason)) => reason,
        other => panic!("unexpected {:?}", other),
    }
}

#[test]
fn token_program_has_its_fixed_address() {
    assert_eq!(
        SolanaPubkey::token_program().0,
        [
            6, 221, 246, 225, 215, 101, 161, 147, 217, 203, 225, 70, 206, 235, 121, 172, 28, 180,
            133, 237, 95, 91, 55, 145, 58, 140, 245, 133, 126, 255, 0, 169,
        ]
    );
    assert_eq!(
        SolanaPubkey::token_program().to_string(),
        "TokenkegQfeZyiNwAJbNbGKPFXCWuBvf9Ss623VQ5DA"
    );
}

#[test]
fn base58_of_known_addresses() {
    assert_eq!(SolanaPubkey::system_program().to_string(), "11111111111111111111111111111111");
    assert_eq!(
        SolanaPubkey::from_str("11111111111111111111111111111111").unwrap(),
        SolanaPubkey::system_program()
    );
    assert_eq!(
        SolanaPubkey::from_str("TokenkegQfeZyiNwAJbNbGKPFXCWuBvf9Ss623VQ5DA").unwrap(),
        SolanaPubkey::token_program()
    );
}

#[test]
fn text_that_is_no_address_is_refused() {
    match SolanaPubkey::from_str("0OIl") {
        Err(TerminatorError::SerializationError(reason)) => assert_eq!(reason, "Invalid base58"),
        other => panic!("unexpected {:?}", other),
    }
    // Base 58, but of three bytes.
    match SolanaPubkey::from_str("2g7") {
        Err(TerminatorError::SerializationError(reason)) => {
            assert_eq!(reason, "Invalid pubkey length")
        }
        other => panic!("unexpected {:?}", other),
    }
    match SolanaPubkey::from_str("") {
        Err(TerminatorError::SerializationError(reason)) => {
            assert_eq!(reason, "Invalid pubkey length")
        }
        other => panic!("unexpected {:?}", other),
    }
    assert!(SolanaPubkey::from_bytes(&[0u8; 31]).is_err());
    assert!(SolanaPubkey::from_bytes(&[0u8; 33]).is_err());
    assert_eq!(SolanaPubkey::from_bytes(&[5u8; 32]).unwrap(), SolanaPubkey::new([5u8; 32]));
}

#[test]
fn transfer_transaction_has_the_documented_shape() {
    let tx = sample();
    assert_eq!(tx.signatures.len(), 1);
    assert_eq!(tx.signatures[0].0, [0u8; 64]);
    assert_eq!(tx.message.header.num_required_signatures, 1);
    assert_eq!(tx.message.header.num_readonly_signed_accounts, 0);
    assert_eq!(tx.message.header.num_readonly_unsigned_accounts, 1);
    assert_eq!(
        tx.message.account_keys,
        vec![
            SolanaPubkey::new([1u8; 32]),
            SolanaPubkey::new([2u8; 32]),
            SolanaPubkey::system_program()
        ]
    );
    assert_eq!(tx.message.recent_blockhash.0, [3u8; 32]);
    assert_eq!(tx.message.instructions.len(), 1);
    assert_eq!(tx.message.instructions[0].program_id_index, 2);
    assert_eq!(tx.message.instructions[0].accounts, vec![0, 1]);
    // 1_000_000 = 0x0F4240
    assert_eq!(tx.message.instructions[0].data, vec![2, 0x40, 0x42, 0x0F, 0, 0, 0, 0, 0]);
}

fn mirror_message(
    tx: &SolanaTransaction,
) -> ((u8, u8, u8), Vec<ByteBuf>, ByteBuf, Vec<(u8, Vec<u8>, Vec<u8>)>) {
    let m = &tx.message;
    (
        (
            m.header.num_required_signatures,
            m.header.num_readonly_signed_accounts,
            m.header.num_readonly_unsigned_accounts,
        ),
        m.account_keys.iter().map(|key| ByteBuf::from(key.0.to_vec())).collect(),
        ByteBuf::from(m.recent_blockhash.0.to_vec()),
        m.instructions
            .iter()
            .map(|i| (i.program_id_index, i.accounts.clone(), i.data.clone()))
            .collect(),
    )
}

#[test]
fn wire_form_agrees_with_bincode() {
    let tx = sample();
    let signatures: Vec<ByteBuf> =
        tx.signatures.iter().map(|s| ByteBuf::from(s.0.to_vec())).collect();
    let expected = bincode::serialize(&(signatures, mirror_message(&tx))).unwrap();
    let bytes = SolanaTransactionParser::serialize_transaction(&tx).unwrap();
    assert_eq!(bytes, expected);
    assert_eq!(bytes.len(), 8 + 72 + 3 + 8 + 3 * 40 + 40 + 8 + (1 + 8 + 2 + 8 + 9));
    assert_eq!(
        SolanaTransactionParser::message_data(&tx.message).unwrap(),
        bincode::serialize(&mirror_message(&tx)).unwrap()
    );
    assert_eq!(&bytes[..8], &[1, 0, 0, 0, 0, 0, 0, 0]);
    assert_eq!(&bytes[8..16], &[64, 0, 0, 0, 0, 0, 0, 0]);
}

#[test]
fn reading_undoes_writing() {
    let mut tx = sample();
    tx.signatures.push(SolanaSignature([7u8; 64]));
    tx.message.header.num_readonly_signed_accounts = 200;
    tx.message.instructions.push(CompiledInstruction {
        program_id_index: 255,
        accounts: vec![],
        data: vec![0; 300],
    });
    let bytes = SolanaTransactionParser::serialize_transaction(&tx).unwrap();
    let back = SolanaTransactionParser::parse_transaction(&bytes).unwrap();
    assert!(same(&tx, &back));
    assert_eq!(SolanaTransactionParser::serialize_transaction(&back).unwrap(), bytes);

    let empty = SolanaTransaction {
        signatures: vec![],
        message: SolanaMessage {
            header: MessageHeader {
                num_required_signatures: 0,
                num_readonly_signed_accounts: 0,
                num_readonly_unsigned_accounts: 0,
            },
            account_keys: vec![],
            recent_blockhash: SolanaHash([0u8; 32]),
            instructions: vec![],
        },
    };
    let bytes = SolanaTransactionParser::serialize_transaction(&empty).unwrap();
    assert_eq!(bytes.len(), 8 + 3 + 8 + 40 + 8);
    assert!(same(&empty, &SolanaTransactionParser::parse_transaction(&bytes).unwrap()));
}

#[test]
fn bytes_behind_a_transaction_are_ignored() {
    let tx = sample();
    let mut bytes = SolanaTransactionParser::serialize_transaction(&tx).unwrap();
    bytes.extend_from_slice(&[1, 2, 3]);
    assert!(same(&tx, &SolanaTransactionParser::parse_transaction(&bytes).unwrap()));
}

fn refused(bytes: &[u8]) {
    match SolanaTransactionParser::parse_transaction(bytes) {
        Err(TerminatorError::SerializationError(reason)) => {
            assert_eq!(reason, "Failed to parse transaction: truncated or malformed input")
        }
        other => panic!("unexpected {:?}", other),
    }
}

#[test]
fn truncated_or_malformed_input_is_refused() {
    let bytes = SolanaTransactionParser::serialize_transaction(&sample()).unwrap();
    for cut in 0..bytes.len() {
        refused(&bytes[..cut]);
    }
    // A signature slot of 63 bytes.
    let mut short = bytes.clone();
    short[8] = 63;
    refused(&short);
    // A key of 33 bytes.
    let mut long = bytes.clone();
    assert_eq!(long[8 + 72 + 3 + 8], 32);
    long[8 + 72 + 3 + 8] = 33;
    refused(&long);
    // More signatures announced than the input can hold.
    let mut many = bytes.clone();
    many[7] = 0xFF;
    refused(&many);
    refused(&[0xFF; 8]);
}

#[test]
fn format_faults_are_reported_in_order() {
    let validate = SolanaTransactionParser::validate_transaction_format;
    let mut tx = sample();
    tx.signatures.clear();
    assert_eq!(reason_of(validate(&tx)), "Signature count mismatch");

    let mut tx = sample();
    tx.message.instructions[0].program_id_index = 3;
    assert_eq!(reason_of(validate(&tx)), "Invalid program_id_index");
    tx.message.instructions[0].accounts = vec![0, 9];
    assert_eq!(reason_of(validate(&tx)), "Invalid program_id_index");
    tx.signatures.push(SolanaSignature([0u8; 64]));
    assert_eq!(reason_of(validate(&tx)), "Signature count mismatch");

    let mut tx = sample();
    tx.message.instructions[0].accounts = vec![0, 1, 2, 3];
    assert_eq!(reason_of(validate(&tx)), "Invalid account index");
    tx.message.instructions[0].accounts = vec![2, 2, 2];
    assert!(validate(&tx).is_ok());

    let mut tx = sample();
    tx.message.instructions.push(CompiledInstruction {
        program_id_index: 0,
        accounts: vec![3],
        data: vec![],
    });
    tx.message.instructions.push(CompiledInstruction {
        program_id_index: 7,
        accounts: vec![],
        data: vec![],
    });
    assert_eq!(reason_of(validate(&tx)), "Invalid account index");

    let mut tx = sample();
    tx.message.instructions.clear();
    tx.message.account_keys.clear();
    assert!(validate(&tx).is_ok());
}

#[test]
fn a_table_of_256_keys_admits_every_index() {
    let mut tx = sample();
    tx.message.account_keys = vec![SolanaPubkey::new([0u8; 32]); 256];
    tx.message.instructions[0].program_id_index = 255;
    tx.message.instructions[0].accounts = vec![0, 128, 255];
    assert!(SolanaTransactionParser::validate_transaction_format(&tx).is_ok());
}

#[test]
fn pda_instruction_lists_its_seeds_with_their_lengths() {
    let one: &[u8] = b"ab";
    let two: &[u8] = b"";
    let three: &[u8] = b"xyz";
    let instruction = SolanaFeatures::create_pda_instruction(
        SolanaPubkey::new([1u8; 32]),
        &[one, two, three],
        SolanaPubkey::new([2u8; 32]),
    )
    .unwrap();
    assert_eq!(instruction.program_id_index, 0);
    assert_eq!(instruction.accounts, vec![0]);
    assert_eq!(instruction.data, vec![0, 3, 2, b'a', b'b', 0, 3, b'x', b'y', b'z']);

    let long = vec![9u8; 257];
    let instruction = SolanaFeatures::create_pda_instruction(
        SolanaPubkey::new([1u8; 32]),
        &[long.as_slice()],
        SolanaPubkey::new([2u8; 32]),
    )
    .unwrap();
    // Lengths are kept modulo 256.
    assert_eq!(&instruction.data[..3], &[0, 1, 1]);
    assert_eq!(instruction.data.len(), 3 + 257);
}

#[test]
fn lookup_table_payload_is_cut_into_addresses() {
    match SolanaFeatures::parse_lookup_table_instruction(&[0u8; 31]) {
        Err(TerminatorError::SerializationError(reason)) => assert_eq!(reason, "Invalid ALT data"),
        other => panic!("unexpected {:?}", other),
    }
    let mut data = vec![1u8; 32];
    data.extend_from_slice(&[2u8; 32]);
    data.extend_from_slice(&[3u8; 31]);
    assert_eq!(
        SolanaFeatures::parse_lookup_table_instruction(&data).unwrap(),
        vec![SolanaPubkey::new([1u8; 32]), SolanaPubkey::new([2u8; 32])]
    );
    assert_eq!(
        SolanaFeatures::parse_lookup_table_instruction(&[4u8; 32]).unwrap(),
        vec![SolanaPubkey::new([4u8; 32])]
    );
}

#[test]
fn unique_addresses_are_digests_of_the_clock() {
    let key = SolanaPubkey::from_nanos(5);
    let mut reading = [0u8; 16];
    reading[0] = 5;
    assert_eq!(key.0, terminator_dancer::SolanaCrypto::sha256_hash(&reading));
    assert_ne!(SolanaPubkey::from_nanos(6), key);
    assert_ne!(SolanaPubkey::new_unique(), SolanaPubkey::system_program());
}
