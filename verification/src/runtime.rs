//! The execution engine: a runtime that owns the ledger and applies
//! transactions to it, instruction by instruction, under a compute budget.

use crate::ledger::LedgerView;
use crate::semantics::{
    address_text, assign_effect, assign_line, auto_fund_balance, create_account_effect,
    create_line, fresh_account, instruction_effect, instruction_size, instructions_size,
    legacy_assign_effect, legacy_create_effect, legacy_create_line, legacy_transfer_amount,
    legacy_transfer_effect, lemma_run_stops, payload_effect, run, settle, step, system_effect,
    too_large_reason, transaction_size, transfer_effect, transfer_line, unknown_line, Effect,
    Progress, AUTO_FUND_FLOOR, INSTRUCTION_COST, LEGACY_CREATE_LAMPORTS,
    LEGACY_TRANSFER_LAMPORTS,
};
use crate::text::{push_byte_list, push_decimal};
use crate::bytes::{bytes32_equal, zero_bytes};
use crate::types::{
    line_texts, Account, AccountView, BankState, ExecutionContext,
    Instruction, InstructionData, Pubkey, RuntimeConfig, Transaction, TransactionResult,
};
use crate::{ErrorView, TerminatorError};
use vstd::bytes::u64_from_le_bytes;
use vstd::prelude::*;
use vstd::slice::slice_subrange;

verus! {

/// The size of a transaction, held to the range of `usize`.
pub open spec fn bounded_size(transaction: Transaction) -> usize {
    if transaction_size(transaction) > usize::MAX {
        usize::MAX
    } else {
        transaction_size(transaction) as usize
    }
}

/// The sizes of longer prefixes are no smaller.
proof fn lemma_sizes_grow(instructions: Seq<Instruction>, low: nat, high: nat)
    requires
        low <= high,
    ensures
        instructions_size(instructions, low) <= instructions_size(instructions, high),
    decreases high,
{
    if low < high {
        lemma_sizes_grow(instructions, low, (high - 1) as nat);
    }
}

/// The lines of a log that grew by one line.
proof fn lemma_line_pushed(lines: Seq<String>, line: String)
    ensures
        line_texts(lines.push(line)) == line_texts(lines) + seq![line@],
{
    assert(line_texts(lines.push(line)) =~= line_texts(lines) + seq![line@]);
}

impl Transaction {
    /// The serialized size, or nothing where it is beyond `usize`.
    fn checked_size(&self) -> (size: Option<usize>)
        ensures
            match size {
                Some(bytes) => bytes == transaction_size(*self),
                None => transaction_size(*self) > usize::MAX,
            },
    {
        let count = self.instructions.len();
        let mut total: usize = 96;
        let mut i: usize = 0;
        while i < count
            invariant
                i <= count,
                count == self.instructions@.len(),
                total == 96 + instructions_size(self.instructions@, i as nat),
            decreases count - i,
        {
            let instruction = &self.instructions[i];
            proof {
                lemma_sizes_grow(self.instructions@, (i + 1) as nat, count as nat);
            }
            let payload: usize = match &instruction.data {
                InstructionData::Transfer { .. } => 92,
                InstructionData::CreateAccount { .. } => 140,
                InstructionData::Assign { .. } => 84,
                InstructionData::Generic { data } => match data.len().checked_add(12) {
                    Some(bytes) => bytes,
                    None => {
                        return None;
                    },
                },
            };
            let listed: usize = match instruction.accounts.len().checked_mul(34) {
                Some(bytes) => bytes,
                None => {
                    return None;
                },
            };
            let fixed: usize = match listed.checked_add(40) {
                Some(bytes) => bytes,
                None => {
                    return None;
                },
            };
            let whole: usize = match fixed.checked_add(payload) {
                Some(bytes) => bytes,
                None => {
                    return None;
                },
            };
            assert(whole == instruction_size(self.instructions@[i as int]));
            total = match total.checked_add(whole) {
                Some(bytes) => bytes,
                None => {
                    return None;
                },
            };
            i += 1;
        }
        let signed: usize = match self.signatures.len().checked_mul(72) {
            Some(bytes) => bytes,
            None => {
                return None;
            },
        };
        total.checked_add(signed)
    }

    /// The number of bytes that the transaction takes when serialized, or
    /// `usize::MAX` where that number is beyond `usize`.
    pub fn serialized_size(&self) -> (size: usize)
        ensures
            size == bounded_size(*self),
    {
        match self.checked_size() {
            Some(bytes) => bytes,
            None => usize::MAX,
        }
    }
}

/// Appends an address as the log shows it.
fn push_address(out: &mut String, key: &[u8; 32])
    ensures
        final(out)@ == old(out)@ + address_text(key@),
{
    out.append("Pubkey(");
    push_byte_list(out, key.as_slice());
    out.append(")");
    assert(out@ =~= old(out)@ + address_text(key@));
}

fn transfer_line_string(lamports: u64, from: &[u8; 32], to: &[u8; 32]) -> (line: String)
    ensures
        line@ == transfer_line(lamports, from@, to@),
{
    let mut line = String::from_str("Transferring ");
    push_decimal(&mut line, lamports);
    line.append(" lamports from ");
    push_address(&mut line, from);
    line.append(" to ");
    push_address(&mut line, to);
    assert(line@ =~= transfer_line(lamports, from@, to@));
    line
}

fn create_line_string(to: &[u8; 32], lamports: u64, space: u64) -> (line: String)
    ensures
        line@ == create_line(to@, lamports, space),
{
    let mut line = String::from_str("Creating account ");
    push_address(&mut line, to);
    line.append(" with ");
    push_decimal(&mut line, lamports);
    line.append(" lamports and ");
    push_decimal(&mut line, space);
    line.append(" bytes");
    assert(line@ =~= create_line(to@, lamports, space));
    line
}

fn assign_line_string(account: &[u8; 32], owner: &[u8; 32]) -> (line: String)
    ensures
        line@ == assign_line(account@, owner@),
{
    let mut line = String::from_str("Assigning account ");
    push_address(&mut line, account);
    line.append(" to owner ");
    push_byte_list(&mut line, owner.as_slice());
    assert(line@ =~= assign_line(account@, owner@));
    line
}

fn address_string(key: &[u8; 32]) -> (text: String)
    ensures
        text@ == address_text(key@),
{
    let mut text = String::new();
    push_address(&mut text, key);
    assert(text@ =~= address_text(key@));
    text
}

fn too_large_string(size: usize, limit: usize) -> (reason: String)
    ensures
        reason@ == too_large_reason(size, limit),
{
    let mut reason = String::from_str("Transaction too large: ");
    push_decimal(&mut reason, size as u64);
    reason.append(" > ");
    push_decimal(&mut reason, limit as u64);
    assert(reason@ =~= too_large_reason(size, limit));
    reason
}

/// A runtime: its settings, and the bank state that its transactions
/// change.
#[derive(Debug, Clone)]
pub struct TerminatorRuntime {
    config: RuntimeConfig,
    bank_state: BankState,
}

impl TerminatorRuntime {
    /// The account ledger.
    pub closed spec fn ledger(&self) -> LedgerView {
        self.bank_state.accounts@
    }

    /// The settings that the runtime was made with.
    pub closed spec fn settings(&self) -> RuntimeConfig {
        self.config
    }

    /// The bank state that holds the ledger.
    pub closed spec fn bank(&self) -> BankState {
        self.bank_state
    }

    /// Everything but the ledger is as in `other`.
    pub open spec fn same_frame(&self, other: &Self) -> bool {
        &&& self.settings() == other.settings()
        &&& self.bank().slot == other.bank().slot
        &&& self.bank().blockhash == other.bank().blockhash
        &&& self.bank().fee_calculator == other.bank().fee_calculator
    }

    /// The ledger that a runtime starts with: the system account with the
    /// configured balance, or no account where that balance is zero.
    pub open spec fn initial_ledger(initial_lamports: u64) -> LedgerView {
        if initial_lamports > 0 {
            Map::<Seq<u8>, AccountView>::empty().insert(
                zero_bytes(32),
                fresh_account(initial_lamports),
            )
        } else {
            Map::<Seq<u8>, AccountView>::empty()
        }
    }

    /// A runtime with the given settings.
    pub fn new(config: RuntimeConfig) -> (runtime: Self)
        ensures
            runtime.settings() == config,
            runtime.ledger() == Self::initial_ledger(config.bank.initial_lamports),
            runtime.bank().slot == 0,
            runtime.bank().blockhash@ == zero_bytes(32),
            runtime.bank().fee_calculator.lamports_per_signature == 5000,
    {
        let mut bank_state = BankState::new();
        if config.bank.initial_lamports > 0 {
            let system_account = Pubkey::system_program();
            bank_state.accounts.insert(
                system_account,
                Account::new(config.bank.initial_lamports, Vec::new(), system_account.0),
            );
        }
        TerminatorRuntime { config, bank_state }
    }

    /// The settings that the runtime was made with.
    pub fn config(&self) -> (config: &RuntimeConfig)
        ensures
            *config == self.settings(),
    {
        &self.config
    }

    /// The bank state that holds the ledger.
    pub fn bank_state(&self) -> (state: &BankState)
        ensures
            *state == self.bank(),
            state.accounts@ == self.ledger(),
    {
        &self.bank_state
    }

    /// The ledger entry for `key`, if there is one.
    pub fn get_account(&self, key: &Pubkey) -> (entry: Option<&Account>)
        ensures
            match entry {
                Some(account) => self.ledger().dom().contains(key@) && account@
                    == self.ledger()[key@],
                None => !self.ledger().dom().contains(key@),
            },
    {
        self.bank_state.accounts.get(key)
    }

    /// Puts `account` into the ledger under `key`, in place of what stood
    /// there.
    pub fn set_account(&mut self, key: Pubkey, account: Account)
        ensures
            final(self).ledger() == old(self).ledger().insert(key@, account@),
            final(self).same_frame(old(self)),
    {
        self.bank_state.accounts.insert(key, account);
    }

    fn balance_of(&self, key: &Pubkey) -> (balance: Option<u64>)
        ensures
            match balance {
                Some(lamports) => self.ledger().dom().contains(key@) && lamports
                    == self.ledger()[key@].lamports,
                None => !self.ledger().dom().contains(key@),
            },
    {
        match self.bank_state.accounts.get(key) {
            Some(account) => Some(account.lamports),
            None => None,
        }
    }

    /// Debits `from`, which the ledger holds, and credits `to`.
    fn settle_transfer(
        &mut self,
        from: &Pubkey,
        to: &Pubkey,
        lamports: u64,
    ) -> (result: Result<(), TerminatorError>)
        requires
            old(self).ledger().dom().contains(from@),
        ensures
            final(self).same_frame(old(self)),
            final(self).ledger() == settle(
                old(self).ledger(),
                from@,
                to@,
                lamports,
                Seq::empty(),
            ).ledger,
            match result {
                Ok(()) => settle(old(self).ledger(), from@, to@, lamports, Seq::empty()).error
                    is None,
                Err(e) => settle(old(self).ledger(), from@, to@, lamports, Seq::empty()).error
                    == Some(e@),
            },
    {
        let balance = match self.balance_of(from) {
            Some(lamports) => lamports,
            None => {
                return Err(TerminatorError::AccountNotFound(address_string(&from.0)));
            },
        };
        if balance < lamports {
            return Err(TerminatorError::InsufficientFunds);
        }
        let left = balance - lamports;
        let held = if bytes32_equal(&from.0, &to.0) {
            left
        } else {
            match self.balance_of(to) {
                Some(lamports) => lamports,
                None => 0,
            }
        };
        let credited = match held.checked_add(lamports) {
            Some(sum) => sum,
            None => {
                return Err(
                    TerminatorError::TransactionExecutionFailed(
                        String::from_str("Balance overflow"),
                    ),
                );
            },
        };
        self.bank_state.accounts.set_lamports(from, left);
        if !self.bank_state.accounts.contains_key(to) {
            let owner = Pubkey::system_program().0;
            self.bank_state.accounts.insert(*to, Account::new(0, Vec::new(), owner));
        }
        self.bank_state.accounts.set_lamports(to, credited);
        assert(self.ledger() =~= settle(
            old(self).ledger(),
            from@,
            to@,
            lamports,
            Seq::empty(),
        ).ledger);
        Ok(())
    }

    /// A transfer of the system program.
    pub fn handle_transfer_instruction(
        &mut self,
        from: [u8; 32],
        to: [u8; 32],
        lamports: u64,
        context: &mut ExecutionContext,
    ) -> (result: Result<(), TerminatorError>)
        ensures
            applied(
                *old(self),
                *old(context),
                transfer_effect(old(self).ledger(), from@, to@, lamports),
                *final(self),
                *final(context),
                result,
            ),
    {
        let from_key = Pubkey::new(from);
        let to_key = Pubkey::new(to);
        let line = transfer_line_string(lamports, &from, &to);
        proof {
            lemma_line_pushed(context.log_messages@, line);
        }
        context.log(line);
        if !self.bank_state.accounts.contains_key(&from_key) {
            let note = String::from_str("Creating from account with initial balance for demo");
            proof {
                lemma_line_pushed(context.log_messages@, note);
            }
            context.log(note);
            let doubled = match lamports.checked_mul(2) {
                Some(twice) => twice,
                None => u64::MAX,
            };
            let initial_balance = if doubled > AUTO_FUND_FLOOR {
                doubled
            } else {
                AUTO_FUND_FLOOR
            };
            assert(initial_balance == auto_fund_balance(lamports));
            let owner = Pubkey::system_program().0;
            self.bank_state.accounts.insert(
                from_key,
                Account::new(initial_balance, Vec::new(), owner),
            );
        }
        let result = self.settle_transfer(&from_key, &to_key, lamports);
        proof {
            let effect = transfer_effect(old(self).ledger(), from@, to@, lamports);
            assert(line_texts(context.log_messages@) =~= line_texts(old(context).log_messages@)
                + effect.logs);
        }
        result
    }

    /// Account creation of the system program.
    pub fn handle_create_account_instruction(
        &mut self,
        _from: [u8; 32],
        to: [u8; 32],
        lamports: u64,
        space: u64,
        owner: [u8; 32],
        context: &mut ExecutionContext,
    ) -> (result: Result<(), TerminatorError>)
        ensures
            applied(
                *old(self),
                *old(context),
                create_account_effect(old(self).ledger(), to@, lamports, space, owner@),
                *final(self),
                *final(context),
                result,
            ),
    {
        let to_key = Pubkey::new(to);
        let line = create_line_string(&to, lamports, space);
        proof {
            lemma_line_pushed(context.log_messages@, line);
        }
        context.log(line);
        if space > usize::MAX as u64 {
            return Err(
                TerminatorError::TransactionExecutionFailed(
                    String::from_str("Account data too large"),
                ),
            );
        }
        let data = vec![0u8; space as usize];
        assert(data@ =~= zero_bytes(space as nat));
        self.bank_state.accounts.insert(to_key, Account::new(lamports, data, owner));
        Ok(())
    }

    /// Assignment of the system program.
    pub fn handle_assign_instruction(
        &mut self,
        account: [u8; 32],
        owner: [u8; 32],
        context: &mut ExecutionContext,
    ) -> (result: Result<(), TerminatorError>)
        ensures
            applied(
                *old(self),
                *old(context),
                assign_effect(old(self).ledger(), account@, owner@),
                *final(self),
                *final(context),
                result,
            ),
    {
        let account_key = Pubkey::new(account);
        let line = assign_line_string(&account, &owner);
        proof {
            lemma_line_pushed(context.log_messages@, line);
        }
        context.log(line);
        self.bank_state.accounts.set_owner(&account_key, owner);
        Ok(())
    }

    /// The legacy create instruction.
    pub fn handle_create_account(
        &mut self,
        instruction: &Instruction,
        context: &mut ExecutionContext,
    ) -> (result: Result<(), TerminatorError>)
        ensures
            applied(
                *old(self),
                *old(context),
                legacy_create_effect(old(self).ledger(), instruction.accounts@),
                *final(self),
                *final(context),
                result,
            ),
    {
        if instruction.accounts.len() < 2 {
            assert(line_texts(context.log_messages@) =~= line_texts(old(context).log_messages@)
                + Seq::<Seq<char>>::empty());
            return Err(
                TerminatorError::TransactionExecutionFailed(
                    String::from_str("CreateAccount requires at least 2 accounts"),
                ),
            );
        }
        let to = instruction.accounts[1].pubkey;
        let mut line = String::from_str("Creating account: ");
        push_address(&mut line, &to.0);
        proof {
            assert(line@ =~= legacy_create_line(to@));
            lemma_line_pushed(context.log_messages@, line);
        }
        context.log(line);
        let owner = Pubkey::system_program().0;
        let new_account = Account::new(LEGACY_CREATE_LAMPORTS, Vec::new(), owner);
        self.bank_state.accounts.insert(to, new_account);
        Ok(())
    }

    /// The legacy assign instruction.
    pub fn handle_assign(
        &mut self,
        _instruction: &Instruction,
        context: &mut ExecutionContext,
    ) -> (result: Result<(), TerminatorError>)
        ensures
            applied(
                *old(self),
                *old(context),
                legacy_assign_effect(old(self).ledger()),
                *final(self),
                *final(context),
                result,
            ),
    {
        let line = String::from_str("Handling assign instruction");
        proof {
            lemma_line_pushed(context.log_messages@, line);
        }
        context.log(line);
        Ok(())
    }

    /// The legacy transfer instruction.
    pub fn handle_transfer(
        &mut self,
        instruction: &Instruction,
        context: &mut ExecutionContext,
    ) -> (result: Result<(), TerminatorError>)
        ensures
            applied(
                *old(self),
                *old(context),
                legacy_transfer_effect(
                    old(self).ledger(),
                    instruction.accounts@,
                    raw_payload(instruction.data),
                ),
                *final(self),
                *final(context),
                result,
            ),
    {
        if instruction.accounts.len() < 2 {
            assert(line_texts(context.log_messages@) =~= line_texts(old(context).log_messages@)
                + Seq::<Seq<char>>::empty());
            return Err(
                TerminatorError::TransactionExecutionFailed(
                    String::from_str("Transfer requires at least 2 accounts"),
                ),
            );
        }
        let from_key = instruction.accounts[0].pubkey;
        let to_key = instruction.accounts[1].pubkey;
        let lamports = match &instruction.data {
            InstructionData::Generic { data } => {
                if data.len() >= 9 {
                    let amount = slice_subrange(data.as_slice(), 1, 9);
                    u64_from_le_bytes(amount)
                } else {
                    LEGACY_TRANSFER_LAMPORTS
                }
            },
            _ => LEGACY_TRANSFER_LAMPORTS,
        };
        assert(lamports == legacy_transfer_amount(raw_payload(instruction.data)));
        let line = transfer_line_string(lamports, &from_key.0, &to_key.0);
        proof {
            lemma_line_pushed(context.log_messages@, line);
        }
        context.log(line);
        if !self.bank_state.accounts.contains_key(&from_key) {
            return Err(TerminatorError::AccountNotFound(address_string(&from_key.0)));
        }
        self.settle_transfer(&from_key, &to_key, lamports)
    }

    /// One instruction of the system program, told apart by its payload.
    pub fn handle_system_instruction(
        &mut self,
        instruction: &Instruction,
        context: &mut ExecutionContext,
    ) -> (result: Result<(), TerminatorError>)
        ensures
            applied(
                *old(self),
                *old(context),
                system_effect(old(self).ledger(), *instruction),
                *final(self),
                *final(context),
                result,
            ),
    {
        let line = String::from_str("Processing system program instruction");
        proof {
            lemma_line_pushed(context.log_messages@, line);
        }
        context.log(line);
        let ghost logged = line_texts(context.log_messages@);
        let ghost inner = payload_effect(old(self).ledger(), *instruction);
        let result = match &instruction.data {
            InstructionData::Transfer { from, to, lamports } => {
                self.handle_transfer_instruction(*from, *to, *lamports, context)
            },
            InstructionData::CreateAccount { from, to, lamports, space, owner } => {
                self.handle_create_account_instruction(
                    *from,
                    *to,
                    *lamports,
                    *space,
                    *owner,
                    context,
                )
            },
            InstructionData::Assign { account, owner } => {
                self.handle_assign_instruction(*account, *owner, context)
            },
            InstructionData::Generic { data } => {
                if data.is_empty() {
                    assert(logged =~= logged + inner.logs);
                    Ok(())
                } else if data[0] == 0 {
                    self.handle_create_account(instruction, context)
                } else if data[0] == 1 {
                    self.handle_assign(instruction, context)
                } else if data[0] == 2 {
                    self.handle_transfer(instruction, context)
                } else {
                    let mut note = String::from_str("Unknown system instruction: ");
                    push_decimal(&mut note, data[0] as u64);
                    proof {
                        assert(note@ =~= unknown_line(data@[0]));
                        lemma_line_pushed(context.log_messages@, note);
                    }
                    context.log(note);
                    Ok(())
                }
            },
        };
        assert(line_texts(context.log_messages@) =~= line_texts(old(context).log_messages@)
            + system_effect(old(self).ledger(), *instruction).logs);
        result
    }

    /// One instruction, routed by the address of its program.
    pub fn process_instruction(
        &mut self,
        instruction: &Instruction,
        context: &mut ExecutionContext,
    ) -> (result: Result<(), TerminatorError>)
        ensures
            applied(
                *old(self),
                *old(context),
                instruction_effect(old(self).ledger(), *instruction),
                *final(self),
                *final(context),
                result,
            ),
    {
        if instruction.program_id == Pubkey::system_program() {
            self.handle_system_instruction(instruction, context)
        } else if instruction.program_id == Pubkey::token_program() {
            self.handle_token_instruction(instruction, context)
        } else {
            self.handle_generic_instruction(instruction, context)
        }
    }

    /// Applies a transaction to the ledger.
    ///
    /// A transaction whose serialized size is above the configured maximum
    /// is refused before the ledger is touched. Otherwise its instructions
    /// are applied in order, each for `INSTRUCTION_COST` compute units, until
    /// all are done, the budget does not cover the next one, or one fails.
    /// What the instructions before a failure did to the ledger stays done.
    pub fn execute_transaction(&mut self, txn: &Transaction) -> (result: Result<
        TransactionResult,
        TerminatorError,
    >)
        ensures
            final(self).same_frame(old(self)),
            transaction_size(*txn) > old(self).settings().runtime.max_transaction_size ==> {
                &&& final(self).ledger() == old(self).ledger()
                &&& result matches Err(e)
                &&& e@ == ErrorView::TransactionExecutionFailed(
                    too_large_reason(
                        bounded_size(*txn),
                        old(self).settings().runtime.max_transaction_size,
                    ),
                )
            },
            transaction_size(*txn) <= old(self).settings().runtime.max_transaction_size ==> {
                let end = run(
                    old(self).ledger(),
                    old(self).settings().runtime.compute_budget,
                    txn.instructions@,
                    txn.instructions@.len(),
                );
                &&& final(self).ledger() == end.ledger
                &&& reported(end, old(self).settings().runtime.compute_budget, result)
            },
    {
        let budget = self.config.runtime.compute_budget;
        let limit = self.config.runtime.max_transaction_size;
        let within = match txn.checked_size() {
            Some(bytes) => bytes <= limit,
            None => false,
        };
        if !within {
            return Err(
                TerminatorError::TransactionExecutionFailed(
                    too_large_string(txn.serialized_size(), limit),
                ),
            );
        }
        let mut context = ExecutionContext::new(budget);
        let count = txn.instructions.len();
        let mut i: usize = 0;
        assert(line_texts(context.log_messages@) =~= Seq::<Seq<char>>::empty());
        while i < count
            invariant
                i <= count,
                count == txn.instructions@.len(),
                self.same_frame(old(self)),
                budget == old(self).settings().runtime.compute_budget,
                transaction_size(*txn) <= old(self).settings().runtime.max_transaction_size,
                context.compute_units_remaining <= budget,
                run(old(self).ledger(), budget, txn.instructions@, i as nat) == (Progress {
                    ledger: self.ledger(),
                    remaining: context.compute_units_remaining,
                    logs: line_texts(context.log_messages@),
                    dispatched: i as nat,
                    error: None,
                }),
            decreases count - i,
        {
            let ghost before = run(old(self).ledger(), budget, txn.instructions@, i as nat);
            let ghost after = run(old(self).ledger(), budget, txn.instructions@, (i + 1) as nat);
            assert(after == step(before, txn.instructions@[i as int]));
            if !context.consume_compute_units(INSTRUCTION_COST) {
                let reason = String::from_str("Compute budget exceeded");
                proof {
                    lemma_run_stops(
                        old(self).ledger(),
                        budget,
                        txn.instructions@,
                        (i + 1) as nat,
                        count as nat,
                    );
                }
                return Err(TerminatorError::TransactionExecutionFailed(reason));
            }
            match self.process_instruction(&txn.instructions[i], &mut context) {
                Ok(()) => {},
                Err(e) => {
                    proof {
                        lemma_run_stops(
                            old(self).ledger(),
                            budget,
                            txn.instructions@,
                            (i + 1) as nat,
                            count as nat,
                        );
                    }
                    return Err(e);
                },
            }
            i += 1;
        }
        Ok(
            TransactionResult {
                success: true,
                compute_units_consumed: budget - context.compute_units_remaining,
                logs: context.log_messages,
                error: None,
            },
        )
    }

    /// Applies a transaction to the ledger all or nothing: as
    /// `execute_transaction` does, except that a transaction that fails
    /// leaves the ledger as it found it.
    pub fn execute_transaction_atomic(&mut self, txn: &Transaction) -> (result: Result<
        TransactionResult,
        TerminatorError,
    >)
        ensures
            final(self).same_frame(old(self)),
            transaction_size(*txn) > old(self).settings().runtime.max_transaction_size ==> {
                &&& final(self).ledger() == old(self).ledger()
                &&& result matches Err(e)
                &&& e@ == ErrorView::TransactionExecutionFailed(
                    too_large_reason(
                        bounded_size(*txn),
                        old(self).settings().runtime.max_transaction_size,
                    ),
                )
            },
            transaction_size(*txn) <= old(self).settings().runtime.max_transaction_size ==> {
                let end = run(
                    old(self).ledger(),
                    old(self).settings().runtime.compute_budget,
                    txn.instructions@,
                    txn.instructions@.len(),
                );
                &&& final(self).ledger() == if end.error is None {
                    end.ledger
                } else {
                    old(self).ledger()
                }
                &&& reported(end, old(self).settings().runtime.compute_budget, result)
            },
    {
        let saved = self.bank_state.accounts.clone();
        let result = self.execute_transaction(txn);
        if result.is_err() {
            self.bank_state.accounts = saved;
        }
        result
    }

    /// One instruction of the token program: a line in the log.
    pub fn handle_token_instruction(
        &mut self,
        _instruction: &Instruction,
        context: &mut ExecutionContext,
    ) -> (result: Result<(), TerminatorError>)
        ensures
            applied(
                *old(self),
                *old(context),
                (Effect {
                    ledger: old(self).ledger(),
                    logs: seq!["Processing token program instruction"@],
                    error: None,
                }),
                *final(self),
                *final(context),
                result,
            ),
    {
        let line = String::from_str("Processing token program instruction");
        proof {
            lemma_line_pushed(context.log_messages@, line);
        }
        context.log(line);
        Ok(())
    }

    /// One instruction of any other program: a line in the log.
    pub fn handle_generic_instruction(
        &mut self,
        _instruction: &Instruction,
        context: &mut ExecutionContext,
    ) -> (result: Result<(), TerminatorError>)
        ensures
            applied(
                *old(self),
                *old(context),
                (Effect {
                    ledger: old(self).ledger(),
                    logs: seq!["Processing generic program instruction"@],
                    error: None,
                }),
                *final(self),
                *final(context),
                result,
            ),
    {
        let line = String::from_str("Processing generic program instruction");
        proof {
            lemma_line_pushed(context.log_messages@, line);
        }
        context.log(line);
        Ok(())
    }
}

/// The result of `execute_transaction` says what `end` holds: the failure
/// that stopped the transaction, or success with the compute units that
/// were spent and the lines that were logged.
pub open spec fn reported(
    end: Progress,
    budget: u64,
    result: Result<TransactionResult, TerminatorError>,
) -> bool {
    match result {
        Ok(done) => {
            &&& end.error is None
            &&& done.success
            &&& done.compute_units_consumed == budget - end.remaining
            &&& line_texts(done.logs@) == end.logs
            &&& done.error is None
        },
        Err(e) => end.error == Some(e@),
    }
}

/// The bytes of a raw payload, and no bytes for the other kinds.
pub open spec fn raw_payload(data: InstructionData) -> Seq<u8> {
    match data {
        InstructionData::Generic { data } => data@,
        _ => Seq::empty(),
    }
}

/// A handler has done what `effect` says: the ledger is the effect's, its
/// lines stand at the end of the log, the compute units are untouched, and
/// the result carries the effect's failure or none.
pub open spec fn applied(
    before: TerminatorRuntime,
    context_before: ExecutionContext,
    effect: Effect,
    after: TerminatorRuntime,
    context_after: ExecutionContext,
    result: Result<(), TerminatorError>,
) -> bool {
    &&& after.same_frame(&before)
    &&& after.ledger() == effect.ledger
    &&& line_texts(context_after.log_messages@) == line_texts(context_before.log_messages@)
        + effect.logs
    &&& context_after.compute_units_remaining == context_before.compute_units_remaining
    &&& match result {
        Ok(()) => effect.error is None,
        Err(e) => effect.error == Some(e@),
    }
}

} // verus!
