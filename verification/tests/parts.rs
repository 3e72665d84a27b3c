use std::cell::Cell;
use terminator_dancer::bank::Bank;
use terminator_dancer::conformance::ConformanceHarness;
use terminator_dancer::executor::TransactionExecutor;
use terminator_dancer::fuzzing::RuntimeFuzzer;
use terminator_dancer::ledger::AccountTable;
use terminator_dancer::text::{byte_list_string, decimal_string};
use terminator_dancer::types::{
    Account, AccountMeta, BankState, ExecutionContext, FeeCalculator, Instruction,
    InstructionData, Pubkey, RuntimeConfig, Transaction,
};
use terminator_dancer::utils::{format_pubkey, get_timestamp};
use terminator_dancer::TerminatorError;

#[test]
fn test_conformance_harness() {
    let mut harness = ConformanceHarness::new();

    harness.run_test("test_pass", || Ok(()));
    harness.run_test("test_fail", || {
        Err(TerminatorError::TransactionExecutionFailed("test".to_string()))
    });

    assert_eq!(harness.passed, 1);
    assert_eq!(harness.failed, 1);
}

#[test]
fn test_fuzzer() {
    let fuzzer = RuntimeFuzzer::new(5);
    assert_eq!(fuzzer.iterations, 5);

    let transaction = fuzzer.generate_random_transaction();
    assert_eq!(transaction.instructions.len(), 1);
}

#[test]
fn fuzz_transaction_has_its_fixed_shape() {
    let program = Pubkey::new([3u8; 32]);
    let account = Pubkey::new([4u8; 32]);
    let transaction = RuntimeFuzzer::transaction_for(program, account);
    assert_eq!(transaction.instructions.len(), 1);
    let instruction = &transaction.instructions[0];
    assert_eq!(instruction.program_id, program);
    assert_eq!(instruction.accounts.len(), 1);
    assert_eq!(instruction.accounts[0].pubkey, account);
    assert!(instruction.accounts[0].is_signer && instruction.accounts[0].is_writable);
    assert!(
        matches!(&instruction.data, InstructionData::Generic { data } if data == &vec![1, 2, 3, 4])
    );
    assert_eq!(transaction.signatures, vec![[0u8; 64]]);
    assert_eq!(transaction.payer, [4u8; 32]);
    assert_eq!(transaction.recent_blockhash, [1u8; 32]);
}

#[test]
fn fuzz_run_counts_failures() {
    let fuzzer = RuntimeFuzzer::new(7);
    assert_eq!(fuzzer.run_fuzz_test("all pass", |_: &Transaction| Ok(())), 0);
    assert_eq!(
        fuzzer.run_fuzz_test("all fail", |_: &Transaction| Err(TerminatorError::InsufficientFunds)),
        7
    );
    assert_eq!(RuntimeFuzzer::new(0).run_fuzz_test("none", |_: &Transaction| Ok(())), 0);
    // Every third run fails: runs 0, 3 and 6 of seven.
    let calls = Cell::new(0usize);
    let failures = fuzzer.run_fuzz_test("some fail", |transaction: &Transaction| {
        assert_eq!(transaction.instructions.len(), 1);
        let call = calls.get();
        calls.set(call + 1);
        if call % 3 == 0 {
            Err(TerminatorError::InvalidSignature)
        } else {
            Ok(())
        }
    });
    assert_eq!(calls.get(), 7);
    assert_eq!(failures, 3);
}

#[test]
fn harness_reports_its_tally() {
    let mut harness = ConformanceHarness::new();
    assert_eq!(harness.report(), "Conformance test results: 0 passed, 0 failed");
    harness.record(true);
    harness.record(true);
    harness.record(false);
    assert_eq!((harness.passed, harness.failed), (2, 1));
    assert_eq!(harness.report(), "Conformance test results: 2 passed, 1 failed");
    harness.passed = usize::MAX;
    harness.record(true);
    assert_eq!(harness.passed, usize::MAX);
}

#[test]
fn decimal_notation() {
    assert_eq!(decimal_string(0), "0");
    assert_eq!(decimal_string(7), "7");
    assert_eq!(decimal_string(10), "10");
    assert_eq!(decimal_string(1_000_000), "1000000");
    assert_eq!(decimal_string(u64::MAX), "18446744073709551615");
}

#[test]
fn byte_lists() {
    assert_eq!(byte_list_string(&[]), "[]");
    assert_eq!(byte_list_string(&[0]), "[0]");
    assert_eq!(byte_list_string(&[1, 20, 255]), "[1, 20, 255]");
    let key = Pubkey::new([9u8; 32]);
    assert_eq!(format_pubkey(&key), format!("{:?}", key.0));
}

#[test]
fn errors_read_as_their_kind_and_reason() {
    let reason = || "why".to_string();
    assert_eq!(
        TerminatorError::TransactionExecutionFailed(reason()).to_string(),
        "Transaction execution failed: why"
    );
    assert_eq!(TerminatorError::AccountNotFound(reason()).to_string(), "Account not found: why");
    assert_eq!(TerminatorError::InsufficientFunds.to_string(), "Insufficient funds");
    assert_eq!(TerminatorError::InvalidSignature.to_string(), "Invalid signature");
    assert_eq!(TerminatorError::ProgramError(reason()).to_string(), "Program error: why");
    assert_eq!(
        TerminatorError::SerializationError(reason()).to_string(),
        "Serialization error: why"
    );
    assert_eq!(
        TerminatorError::ConformanceTestFailed(reason()).to_string(),
        "Conformance test failed: why"
    );
}

#[test]
fn default_settings() {
    let config = RuntimeConfig::default();
    assert_eq!(config.runtime.compute_budget, 1_400_000);
    assert_eq!(config.runtime.max_transaction_size, 1232);
    assert!(!config.runtime.enable_fuzzing);
    assert!(!config.runtime.conformance_testing);
    assert_eq!(config.bank.initial_lamports, 1_000_000_000_000);
    assert!(config.bank.rent_collection_enabled);
    assert!(config.bank.fee_rate_governor_enabled);
    assert_eq!(config.logging.level, "info");
    assert!(config.logging.enable_transaction_logs);
    assert!(config.logging.enable_execution_traces);
    assert_eq!(config.performance.max_concurrent_transactions, 1000);
    assert_eq!(config.performance.cache_size_mb, 512);
    assert_eq!(config.performance.gc_threshold_mb, 1024);
    assert_eq!(config.networking.max_connections, 1000);
    assert_eq!(config.networking.connection_timeout_ms, 5000);
    assert_eq!(config.testing.fuzz_iterations, 1000);
    assert!(config.testing.differential_testing);
    assert!(config.testing.property_testing);
    assert_eq!(FeeCalculator::default().lamports_per_signature, 5000);
}

#[test]
fn addresses() {
    assert_eq!(Pubkey::system_program().0, [0u8; 32]);
    assert_eq!(
        Pubkey::token_program().0,
        [
            6, 221, 246, 225, 215, 101, 161, 147, 217, 203, 225, 70, 206, 235, 121, 172, 28, 180,
            133, 237, 95, 91, 55, 145, 58, 140, 245, 133, 126, 255, 0, 169,
        ]
    );
    assert_eq!(Pubkey::new([3u8; 32]), Pubkey::new([3u8; 32]));
    assert_ne!(Pubkey::new([3u8; 32]), Pubkey::new([4u8; 32]));
    let mut last = [3u8; 32];
    last[31] = 4;
    assert_ne!(Pubkey::new([3u8; 32]), Pubkey::new(last));

    // 0x0102 nanoseconds: little-endian in the first sixteen bytes.
    let key = Pubkey::from_nanos(0x0102);
    let mut expected = [0u8; 32];
    expected[0] = 2;
    expected[1] = 1;
    assert_eq!(key.0, expected);
    let mut all = [0u8; 32];
    for byte in all.iter_mut().take(16) {
        *byte = 0xFF;
    }
    assert_eq!(Pubkey::from_nanos(u128::MAX).0, all);
    let unique = Pubkey::new_unique();
    assert_eq!(&unique.0[16..], &[0u8; 16]);
    assert_ne!(unique, Pubkey::system_program());
    assert!(get_timestamp() > 1_600_000_000);
}

#[test]
fn accounts() {
    let account = Account::new(5, vec![1, 2], [7u8; 32]);
    assert_eq!(
        (account.lamports, account.data.clone(), account.owner, account.executable),
        (5, vec![1, 2], [7u8; 32], false)
    );
    assert_eq!(account.rent_epoch, 0);
    let program = Account::new_executable(6, vec![], [8u8; 32]);
    assert!(program.executable);
    assert_eq!((program.lamports, program.owner, program.rent_epoch), (6, [8u8; 32], 0));
    let copy = account.duplicate();
    assert_eq!((copy.lamports, copy.data, copy.owner), (5, vec![1, 2], [7u8; 32]));
}

#[test]
fn execution_context_meters_and_logs() {
    let mut context = ExecutionContext::new(1500);
    assert!(context.consume_compute_units(1000));
    assert_eq!(context.compute_units_remaining, 500);
    assert!(!context.consume_compute_units(501));
    assert_eq!(context.compute_units_remaining, 500);
    assert!(context.consume_compute_units(500));
    assert_eq!(context.compute_units_remaining, 0);
    assert!(context.consume_compute_units(0));
    context.log("one".to_string());
    context.log("two".to_string());
    assert_eq!(context.log_messages, vec!["one".to_string(), "two".to_string()]);
}

#[test]
fn account_table_keeps_one_entry_for_each_address() {
    let mut table = AccountTable::new();
    let a = Pubkey::new([1u8; 32]);
    let b = Pubkey::new([2u8; 32]);
    assert!(!table.contains_key(&a));
    assert!(table.get(&a).is_none());
    table.insert(a, Account::new(1, vec![], [0u8; 32]));
    table.insert(b, Account::new(2, vec![], [0u8; 32]));
    table.insert(a, Account::new(3, vec![9], [0u8; 32]));
    assert_eq!(table.get(&a).unwrap().lamports, 3);
    assert_eq!(table.get(&a).unwrap().data, vec![9]);
    assert_eq!(table.get(&b).unwrap().lamports, 2);
    assert!(table.set_lamports(&b, 20));
    assert!(table.set_owner(&b, [5u8; 32]));
    assert_eq!((table.get(&b).unwrap().lamports, table.get(&b).unwrap().owner), (20, [5u8; 32]));
    assert_eq!(table.get(&a).unwrap().lamports, 3);
    let c = Pubkey::new([3u8; 32]);
    assert!(!table.set_lamports(&c, 1));
    assert!(!table.set_owner(&c, [1u8; 32]));
    assert!(!table.contains_key(&c));
    let copy = table.clone();
    table.insert(c, Account::new(4, vec![], [0u8; 32]));
    assert!(!copy.contains_key(&c));
    assert_eq!(copy.get(&b).unwrap().lamports, 20);
    let state = BankState::new();
    assert!(!state.accounts.contains_key(&a));
    assert_eq!((state.slot, state.blockhash), (0, [0u8; 32]));
}

fn naming(keys: &[[u8; 32]]) -> Instruction {
    Instruction {
        program_id: Pubkey::new([9u8; 32]),
        accounts: keys
            .iter()
            .map(|key| AccountMeta {
                pubkey: Pubkey::new(*key),
                is_signer: false,
                is_writable: true,
            })
            .collect(),
        data: InstructionData::Generic { data: vec![] },
    }
}

#[test]
fn bank_credits_the_first_account() {
    let mut bank = Bank::new();
    let a = [1u8; 32];
    let b = [2u8; 32];
    assert_eq!(bank.get_balance(&Pubkey::new(a)), 0);
    bank.process_transaction(&naming(&[a, b])).unwrap();
    bank.process_transaction(&naming(&[a])).unwrap();
    bank.process_transaction(&naming(&[b, a])).unwrap();
    assert_eq!(bank.get_balance(&Pubkey::new(a)), 20);
    assert_eq!(bank.get_balance(&Pubkey::new(b)), 10);
    match bank.process_transaction(&naming(&[])) {
        Err(TerminatorError::AccountNotFound(which)) => assert_eq!(which, "missing account"),
        other => panic!("unexpected {:?}", other),
    }
    assert_eq!(bank.get_balance(&Pubkey::new(a)), 20);
}

#[test]
fn executor_reports_success() {
    let executor = TransactionExecutor::new(77);
    assert_eq!(executor.compute_budget, 77);
    let transaction =
        RuntimeFuzzer::transaction_for(Pubkey::new([1u8; 32]), Pubkey::new([2u8; 32]));
    let result = executor.execute(&transaction).unwrap();
    assert!(result.success);
    assert_eq!(result.compute_units_consumed, 100);
    assert_eq!(result.logs, vec!["Transaction executed successfully".to_string()]);
    assert_eq!(result.error, None);
}
