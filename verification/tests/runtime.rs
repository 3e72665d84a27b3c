use serde_bytes::ByteBuf;
use terminator_dancer::runtime::TerminatorRuntime;
use terminator_dancer::types::{
    Account, AccountMeta, ExecutionContext, Instruction, InstructionData, Pubkey, RuntimeConfig,
    Transaction,
};
use terminator_dancer::TerminatorError;

const SYSTEM: [u8; 32] = [0u8; 32];

fn meta(key: [u8; 32]) -> AccountMeta {
    AccountMeta { pubkey: Pubkey::new(key), is_signer: true, is_writable: true }
}

fn system(accounts: Vec<AccountMeta>, data: InstructionData) -> Instruction {
    Instruction { program_id: Pubkey::system_program(), accounts, data }
}

fn transfer(from: [u8; 32], to: [u8; 32], lamports: u64) -> Instruction {
    system(vec![meta(from), meta(to)], InstructionData::Transfer { from, to, lamports })
}

fn raw(accounts: Vec<AccountMeta>, data: Vec<u8>) -> Instruction {
    system(accounts, InstructionData::Generic { data })
}

fn transaction(instructions: Vec<Instruction>) -> Transaction {
    Transaction {
        instructions,
        signatures: vec![[0u8; 64]],
        payer: [1u8; 32],
        recent_blockhash: [1u8; 32],
    }
}

fn runtime() -> TerminatorRuntime {
    TerminatorRuntime::new(RuntimeConfig::default())
}

fn runtime_with(budget: u64, max_size: usize) -> TerminatorRuntime {
    let mut config = RuntimeConfig::default();
    config.runtime.compute_budget = budget;
    config.runtime.max_transaction_size = max_size;
    TerminatorRuntime::new(config)
}

fn fund(runtime: &mut TerminatorRuntime, key: [u8; 32], lamports: u64) {
    runtime.set_account(Pubkey::new(key), Account::new(lamports, vec![], SYSTEM));
}

fn balance(runtime: &TerminatorRuntime, key: [u8; 32]) -> Option<u64> {
    runtime.get_account(&Pubkey::new(key)).map(|account| account.lamports)
}

fn address(key: [u8; 32]) -> String {
    format!("Pubkey({:?})", key)
}

#[test]
fn test_runtime_initialization() {
    let runtime = TerminatorRuntime::new(RuntimeConfig::default());
    assert_eq!(runtime.config().runtime.compute_budget, 1_400_000);
    assert_eq!(runtime.config().runtime.max_transaction_size, 1232);
    let system = runtime.get_account(&Pubkey::system_program()).unwrap();
    assert_eq!(system.lamports, 1_000_000_000_000);
    assert_eq!(system.owner, SYSTEM);
    assert!(system.data.is_empty());
    assert!(!system.executable);
    assert_eq!(runtime.bank_state().slot, 0);
    assert_eq!(runtime.bank_state().blockhash, [0u8; 32]);
    assert_eq!(runtime.bank_state().fee_calculator.lamports_per_signature, 5000);
}

#[test]
fn runtime_without_initial_lamports_has_no_system_account() {
    let mut config = RuntimeConfig::default();
    config.bank.initial_lamports = 0;
    let runtime = TerminatorRuntime::new(config);
    assert!(runtime.get_account(&Pubkey::system_program()).is_none());
}

#[test]
fn test_transaction_execution() {
    let mut runtime = TerminatorRuntime::new(RuntimeConfig::default());

    let program_id = Pubkey::new_unique();
    let account = Pubkey::new_unique();

    let instruction = Instruction {
        program_id,
        accounts: vec![AccountMeta { pubkey: account, is_signer: true, is_writable: true }],
        data: InstructionData::Generic { data: vec![1, 2, 3, 4] },
    };

    let transaction = Transaction {
        instructions: vec![instruction],
        signatures: vec![[0u8; 64]],
        payer: account.0,
        recent_blockhash: [1u8; 32],
    };

    let result = runtime.execute_transaction(&transaction);
    assert!(result.is_ok());
    assert!(result.unwrap().success);
}

#[test]
fn transfer_from_funded_to_absent_account() {
    let mut runtime = runtime();
    let from = [7u8; 32];
    let to = [9u8; 32];
    fund(&mut runtime, from, 2_000_000);
    let result =
        runtime.execute_transaction(&transaction(vec![transfer(from, to, 500_000)])).unwrap();
    assert!(result.success);
    assert_eq!(result.compute_units_consumed, 1000);
    assert_eq!(result.error, None);
    assert_eq!(balance(&runtime, from), Some(1_500_000));
    assert_eq!(balance(&runtime, to), Some(500_000));
    assert_eq!(
        result.logs,
        vec![
            "Processing system program instruction".to_string(),
            format!("Transferring 500000 lamports from {} to {}", address(from), address(to)),
        ]
    );
    let created = runtime.get_account(&Pubkey::new(to)).unwrap();
    assert_eq!(created.owner, SYSTEM);
    assert!(created.data.is_empty());
}

#[test]
fn create_account_puts_a_zeroed_account() {
    let mut runtime = runtime();
    let to = [4u8; 32];
    let owner = [5u8; 32];
    let create = system(
        vec![meta([3u8; 32]), meta(to)],
        InstructionData::CreateAccount {
            from: [3u8; 32],
            to,
            lamports: 1_000_000,
            space: 128,
            owner,
        },
    );
    let result = runtime.execute_transaction(&transaction(vec![create])).unwrap();
    assert!(result.success);
    let account = runtime.get_account(&Pubkey::new(to)).unwrap();
    assert_eq!(account.lamports, 1_000_000);
    assert_eq!(account.data, vec![0u8; 128]);
    assert_eq!(account.owner, owner);
    assert!(!account.executable);
    assert_eq!(account.rent_epoch, 0);
    // The payer is not debited, and not even created.
    assert_eq!(balance(&runtime, [3u8; 32]), None);
    assert_eq!(
        result.logs[1],
        format!("Creating account {} with 1000000 lamports and 128 bytes", address(to))
    );
}

#[test]
fn create_account_replaces_what_stood_there() {
    let mut runtime = runtime();
    let to = [4u8; 32];
    fund(&mut runtime, to, 77);
    let create = system(
        vec![],
        InstructionData::CreateAccount { from: to, to, lamports: 5, space: 2, owner: [1u8; 32] },
    );
    runtime.execute_transaction(&transaction(vec![create])).unwrap();
    let account = runtime.get_account(&Pubkey::new(to)).unwrap();
    assert_eq!((account.lamports, account.data.clone(), account.owner), (5, vec![0, 0], [1u8; 32]));
}

#[test]
fn transfer_conserves_the_sum_of_both_balances() {
    let mut runtime = runtime();
    let a = [1u8; 32];
    let b = [2u8; 32];
    fund(&mut runtime, a, 900);
    fund(&mut runtime, b, 50);
    runtime.execute_transaction(&transaction(vec![transfer(a, b, 300)])).unwrap();
    assert_eq!(balance(&runtime, a), Some(600));
    assert_eq!(balance(&runtime, b), Some(350));
    // The whole balance can go.
    runtime.execute_transaction(&transaction(vec![transfer(a, b, 600)])).unwrap();
    assert_eq!(balance(&runtime, a), Some(0));
    assert_eq!(balance(&runtime, b), Some(950));
}

#[test]
fn transfer_to_oneself_changes_nothing() {
    let mut runtime = runtime();
    let a = [1u8; 32];
    fund(&mut runtime, a, u64::MAX);
    runtime.execute_transaction(&transaction(vec![transfer(a, a, 10)])).unwrap();
    assert_eq!(balance(&runtime, a), Some(u64::MAX));
}

#[test]
fn transfer_of_more_than_the_balance_fails_and_changes_nothing() {
    let mut runtime = runtime();
    let a = [1u8; 32];
    let b = [2u8; 32];
    fund(&mut runtime, a, 100);
    fund(&mut runtime, b, 50);
    let result = runtime.execute_transaction(&transaction(vec![transfer(a, b, 101)]));
    assert!(matches!(result, Err(TerminatorError::InsufficientFunds)));
    assert_eq!(balance(&runtime, a), Some(100));
    assert_eq!(balance(&runtime, b), Some(50));
}

#[test]
fn transfer_that_overflows_the_target_fails_and_changes_nothing() {
    let mut runtime = runtime();
    let a = [1u8; 32];
    let b = [2u8; 32];
    fund(&mut runtime, a, 100);
    fund(&mut runtime, b, u64::MAX - 5);
    let result = runtime.execute_transaction(&transaction(vec![transfer(a, b, 6)]));
    match result {
        Err(TerminatorError::TransactionExecutionFailed(reason)) => {
            assert_eq!(reason, "Balance overflow")
        }
        other => panic!("unexpected {:?}", other),
    }
    assert_eq!(balance(&runtime, a), Some(100));
    assert_eq!(balance(&runtime, b), Some(u64::MAX - 5));
    runtime.execute_transaction(&transaction(vec![transfer(a, b, 5)])).unwrap();
    assert_eq!(balance(&runtime, b), Some(u64::MAX));
}

#[test]
fn transfer_from_an_absent_source_creates_it_with_the_policy_balance() {
    let mut runtime = runtime();
    let a = [1u8; 32];
    let b = [2u8; 32];
    let result = runtime.execute_transaction(&transaction(vec![transfer(a, b, 1000)])).unwrap();
    // max(2 * 1000, 10_000_000) - 1000
    assert_eq!(balance(&runtime, a), Some(9_999_000));
    assert_eq!(balance(&runtime, b), Some(1000));
    assert_eq!(result.logs.len(), 3);
    assert_eq!(result.logs[2], "Creating from account with initial balance for demo");

    let c = [3u8; 32];
    runtime.execute_transaction(&transaction(vec![transfer(c, b, 6_000_000)])).unwrap();
    // max(2 * 6_000_000, 10_000_000) - 6_000_000
    assert_eq!(balance(&runtime, c), Some(6_000_000));

    let d = [4u8; 32];
    let e = [5u8; 32];
    runtime.execute_transaction(&transaction(vec![transfer(d, e, u64::MAX)])).unwrap();
    // Twice the amount does not fit: the source starts with u64::MAX.
    assert_eq!(balance(&runtime, d), Some(0));
    assert_eq!(balance(&runtime, e), Some(u64::MAX));
}

#[test]
fn assign_changes_the_owner_of_an_existing_account_only() {
    let mut runtime = runtime();
    let a = [1u8; 32];
    fund(&mut runtime, a, 10);
    let assign = |account: [u8; 32]| {
        system(vec![], InstructionData::Assign { account, owner: [8u8; 32] })
    };
    let result = runtime.execute_transaction(&transaction(vec![assign(a)])).unwrap();
    let account = runtime.get_account(&Pubkey::new(a)).unwrap();
    assert_eq!(account.owner, [8u8; 32]);
    assert_eq!(account.lamports, 10);
    assert_eq!(
        result.logs[1],
        format!("Assigning account {} to owner {:?}", address(a), [8u8; 32])
    );
    let absent = [2u8; 32];
    assert!(runtime.execute_transaction(&transaction(vec![assign(absent)])).unwrap().success);
    assert_eq!(balance(&runtime, absent), None);
}

#[test]
fn compute_budget_stops_the_transaction_and_keeps_what_was_done() {
    let mut runtime = runtime_with(2500, 100_000);
    let a = [1u8; 32];
    let b = [2u8; 32];
    fund(&mut runtime, a, 100);
    let three = transaction(vec![transfer(a, b, 10), transfer(a, b, 10), transfer(a, b, 10)]);
    match runtime.execute_transaction(&three) {
        Err(TerminatorError::TransactionExecutionFailed(reason)) => {
            assert_eq!(reason, "Compute budget exceeded")
        }
        other => panic!("unexpected {:?}", other),
    }
    // floor(2500 / 1000) = 2 instructions were applied, the third was not.
    assert_eq!(balance(&runtime, a), Some(80));
    assert_eq!(balance(&runtime, b), Some(20));
}

#[test]
fn compute_units_are_counted_per_instruction() {
    let mut runtime = runtime_with(3000, 100_000);
    let a = [1u8; 32];
    fund(&mut runtime, a, 100);
    let three = transaction(vec![transfer(a, a, 1), transfer(a, a, 1), transfer(a, a, 1)]);
    assert_eq!(runtime.execute_transaction(&three).unwrap().compute_units_consumed, 3000);
    let none = transaction(vec![]);
    let result = runtime.execute_transaction(&none).unwrap();
    assert_eq!(result.compute_units_consumed, 0);
    assert!(result.logs.is_empty());
    let mut empty_budget = runtime_with(999, 100_000);
    assert!(empty_budget.execute_transaction(&none).unwrap().success);
    assert!(empty_budget.execute_transaction(&transaction(vec![transfer(a, a, 1)])).is_err());
}

#[test]
fn oversized_transaction_is_refused_before_the_ledger_is_touched() {
    let a = [1u8; 32];
    let b = [2u8; 32];
    let one = transaction(vec![transfer(a, b, 10)]);
    let size = one.serialized_size();
    assert_eq!(size, 96 + 72 + 40 + 2 * 34 + 92);

    let mut tight = runtime_with(1_400_000, size - 1);
    match tight.execute_transaction(&one) {
        Err(TerminatorError::TransactionExecutionFailed(reason)) => {
            assert_eq!(reason, format!("Transaction too large: {} > {}", size, size - 1))
        }
        other => panic!("unexpected {:?}", other),
    }
    assert_eq!(balance(&tight, a), None);
    assert_eq!(balance(&tight, b), None);

    let mut exact = runtime_with(1_400_000, size);
    assert!(exact.execute_transaction(&one).unwrap().success);
    assert_eq!(balance(&exact, b), Some(10));
}

#[test]
fn failure_keeps_what_earlier_instructions_did() {
    let mut runtime = runtime();
    let a = [1u8; 32];
    let b = [2u8; 32];
    fund(&mut runtime, a, 100);
    let two = transaction(vec![transfer(a, b, 60), transfer(a, b, 60)]);
    assert!(matches!(
        runtime.execute_transaction(&two),
        Err(TerminatorError::InsufficientFunds)
    ));
    assert_eq!(balance(&runtime, a), Some(40));
    assert_eq!(balance(&runtime, b), Some(60));
}

#[test]
fn programs_are_told_apart_by_address() {
    let mut runtime = runtime();
    let a = [1u8; 32];
    let b = [2u8; 32];
    let mut token = transfer(a, b, 10);
    token.program_id = Pubkey::token_program();
    let mut other = transfer(a, b, 10);
    other.program_id = Pubkey::new([9u8; 32]);
    let result = runtime.execute_transaction(&transaction(vec![token, other])).unwrap();
    assert_eq!(
        result.logs,
        vec![
            "Processing token program instruction".to_string(),
            "Processing generic program instruction".to_string(),
        ]
    );
    assert_eq!(result.compute_units_consumed, 2000);
    assert_eq!(balance(&runtime, a), None);
    assert_eq!(balance(&runtime, b), None);
}

#[test]
fn legacy_payloads_are_told_apart_by_their_first_byte() {
    let mut runtime = runtime();
    let a = [1u8; 32];
    let b = [2u8; 32];

    let empty = runtime.execute_transaction(&transaction(vec![raw(vec![], vec![])])).unwrap();
    assert_eq!(empty.logs, vec!["Processing system program instruction".to_string()]);

    let unknown = runtime.execute_transaction(&transaction(vec![raw(vec![], vec![7, 1])])).unwrap();
    assert_eq!(unknown.logs[1], "Unknown system instruction: 7");
    assert!(unknown.success);

    let assign = runtime.execute_transaction(&transaction(vec![raw(vec![], vec![1])])).unwrap();
    assert_eq!(assign.logs[1], "Handling assign instruction");

    let create =
        runtime.execute_transaction(&transaction(vec![raw(vec![meta(a), meta(b)], vec![0])]));
    assert_eq!(create.unwrap().logs[1], format!("Creating account: {}", address(b)));
    assert_eq!(balance(&runtime, b), Some(1_000_000));
    assert_eq!(balance(&runtime, a), None);

    match runtime.execute_transaction(&transaction(vec![raw(vec![meta(a)], vec![0])])) {
        Err(TerminatorError::TransactionExecutionFailed(reason)) => {
            assert_eq!(reason, "CreateAccount requires at least 2 accounts")
        }
        other => panic!("unexpected {:?}", other),
    }
}

#[test]
fn legacy_transfer_reads_its_amount_from_the_payload() {
    let mut runtime = runtime();
    let a = [1u8; 32];
    let b = [2u8; 32];
    fund(&mut runtime, a, 5_000_000);

    // 0x0102 = 258, little-endian in bytes 1 to 8; byte 9 is ignored.
    let payload = vec![2, 2, 1, 0, 0, 0, 0, 0, 0, 99];
    runtime
        .execute_transaction(&transaction(vec![raw(vec![meta(a), meta(b)], payload)]))
        .unwrap();
    assert_eq!(balance(&runtime, a), Some(5_000_000 - 258));
    assert_eq!(balance(&runtime, b), Some(258));

    // A payload of fewer than nine bytes moves the default amount.
    let short = vec![2, 1, 0, 0, 0, 0, 0, 0];
    runtime.execute_transaction(&transaction(vec![raw(vec![meta(a), meta(b)], short)])).unwrap();
    assert_eq!(balance(&runtime, b), Some(258 + 1_000_000));

    match runtime.execute_transaction(&transaction(vec![raw(vec![meta(a)], vec![2])])) {
        Err(TerminatorError::TransactionExecutionFailed(reason)) => {
            assert_eq!(reason, "Transfer requires at least 2 accounts")
        }
        other => panic!("unexpected {:?}", other),
    }

    // The source of a legacy transfer is not created.
    let c = [3u8; 32];
    match runtime.execute_transaction(&transaction(vec![raw(vec![meta(c), meta(b)], vec![2])])) {
        Err(TerminatorError::AccountNotFound(which)) => assert_eq!(which, address(c)),
        other => panic!("unexpected {:?}", other),
    }
    assert_eq!(balance(&runtime, c), None);

    fund(&mut runtime, c, 999_999);
    assert!(matches!(
        runtime.execute_transaction(&transaction(vec![raw(vec![meta(c), meta(b)], vec![2])])),
        Err(TerminatorError::InsufficientFunds)
    ));
}

#[test]
fn handlers_can_be_called_one_by_one() {
    let mut runtime = runtime();
    let mut context = ExecutionContext::new(5);
    let a = [1u8; 32];
    let b = [2u8; 32];
    fund(&mut runtime, a, 10);
    runtime.handle_transfer_instruction(a, b, 4, &mut context).unwrap();
    runtime.handle_assign_instruction(b, [6u8; 32], &mut context).unwrap();
    runtime.handle_create_account_instruction(a, [3u8; 32], 1, 1, a, &mut context).unwrap();
    runtime.process_instruction(&transfer(a, b, 1), &mut context).unwrap();
    assert_eq!(balance(&runtime, a), Some(5));
    assert_eq!(balance(&runtime, b), Some(5));
    assert_eq!(runtime.get_account(&Pubkey::new(b)).unwrap().owner, [6u8; 32]);
    assert_eq!(context.compute_units_remaining, 5);
    assert_eq!(context.log_messages.len(), 5);
}

fn key_list(keys: &[[u8; 32]]) -> Vec<([u8; 32], bool, bool)> {
    keys.iter().map(|key| (*key, true, true)).collect()
}

#[test]
fn serialized_size_agrees_with_bincode() {
    let a = [1u8; 32];
    let b = [2u8; 32];
    let slots = vec![ByteBuf::from(vec![0u8; 64])];
    let tail = (slots, ByteBuf::from(vec![1u8; 32]), ByteBuf::from(vec![1u8; 32]));

    let one = transaction(vec![transfer(a, b, 10)]);
    let payload = (0u32, ByteBuf::from(a.to_vec()), ByteBuf::from(b.to_vec()), 10u64);
    let mirror = (vec![(SYSTEM, key_list(&[a, b]), payload)], tail.0.clone(), &tail.1, &tail.2);
    assert_eq!(one.serialized_size() as u64, bincode::serialized_size(&mirror).unwrap());

    let create = transaction(vec![system(
        vec![meta(a)],
        InstructionData::CreateAccount { from: a, to: b, lamports: 1, space: 2, owner: a },
    )]);
    let payload = (
        1u32,
        ByteBuf::from(a.to_vec()),
        ByteBuf::from(b.to_vec()),
        1u64,
        2u64,
        ByteBuf::from(a.to_vec()),
    );
    let mirror = (vec![(SYSTEM, key_list(&[a]), payload)], tail.0.clone(), &tail.1, &tail.2);
    assert_eq!(create.serialized_size() as u64, bincode::serialized_size(&mirror).unwrap());

    let assign =
        transaction(vec![system(vec![], InstructionData::Assign { account: a, owner: b })]);
    let payload = (2u32, ByteBuf::from(a.to_vec()), ByteBuf::from(b.to_vec()));
    let mirror = (vec![(SYSTEM, key_list(&[]), payload)], tail.0.clone(), &tail.1, &tail.2);
    assert_eq!(assign.serialized_size() as u64, bincode::serialized_size(&mirror).unwrap());

    let generic = transaction(vec![raw(vec![meta(a), meta(b), meta(a)], vec![1, 2, 3, 4, 5])]);
    let payload = (3u32, vec![1u8, 2, 3, 4, 5]);
    let mirror = (vec![(SYSTEM, key_list(&[a, b, a]), payload)], tail.0.clone(), &tail.1, &tail.2);
    assert_eq!(generic.serialized_size() as u64, bincode::serialized_size(&mirror).unwrap());

    let mut empty = transaction(vec![]);
    empty.signatures = vec![];
    assert_eq!(empty.serialized_size(), 96);
    let nothing: Vec<u8> = vec![];
    let no_slots: Vec<ByteBuf> = vec![];
    let mirror = (nothing, no_slots, &tail.1, &tail.2);
    assert_eq!(bincode::serialized_size(&mirror).unwrap(), 96);
}

#[test]
fn atomic_execution_undoes_a_failed_transaction() {
    let mut runtime = runtime();
    let a = [1u8; 32];
    let b = [2u8; 32];
    fund(&mut runtime, a, 100);
    let two = transaction(vec![transfer(a, b, 60), transfer(a, b, 60)]);
    assert!(matches!(
        runtime.execute_transaction_atomic(&two),
        Err(TerminatorError::InsufficientFunds)
    ));
    assert_eq!(balance(&runtime, a), Some(100));
    assert_eq!(balance(&runtime, b), None);

    let one = transaction(vec![transfer(a, b, 60)]);
    let result = runtime.execute_transaction_atomic(&one).unwrap();
    assert!(result.success);
    assert_eq!(result.compute_units_consumed, 1000);
    assert_eq!(balance(&runtime, a), Some(40));
    assert_eq!(balance(&runtime, b), Some(60));
}
