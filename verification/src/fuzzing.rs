//! Generation of transactions for fuzz runs.

use crate::types::{AccountMeta, Instruction, InstructionData, Pubkey, Transaction};
use crate::TerminatorError;
use vstd::prelude::*;

verus! {

pub struct RuntimeFuzzer {
    pub iterations: usize,
}

/// `transaction` is the one that a fuzz run makes for `program_id` and
/// `account`: one instruction of that program with the payload 1, 2, 3, 4,
/// which names `account` as a writable signer, one empty signature slot,
/// `account` as the payer, and a blockhash of ones.
pub open spec fn is_fuzz_transaction(
    transaction: Transaction,
    program_id: Seq<u8>,
    account: Seq<u8>,
) -> bool {
    &&& transaction.instructions@.len() == 1
    &&& transaction.instructions@[0].program_id@ == program_id
    &&& transaction.instructions@[0].accounts@.len() == 1
    &&& transaction.instructions@[0].accounts@[0].pubkey@ == account
    &&& transaction.instructions@[0].accounts@[0].is_signer
    &&& transaction.instructions@[0].accounts@[0].is_writable
    &&& transaction.instructions@[0].data matches InstructionData::Generic { data }
    &&& data@ == seq![1u8, 2u8, 3u8, 4u8]
    &&& transaction.signatures@.len() == 1
    &&& transaction.signatures@[0]@ == Seq::new(64, |i: int| 0u8)
    &&& transaction.payer@ == account
    &&& transaction.recent_blockhash@ == Seq::new(32, |i: int| 1u8)
}

impl RuntimeFuzzer {
    pub fn new(iterations: usize) -> (fuzzer: Self)
        ensures
            fuzzer.iterations == iterations,
    {
        RuntimeFuzzer { iterations }
    }

    /// The transaction of a fuzz run for the given program and account.
    pub fn transaction_for(program_id: Pubkey, account: Pubkey) -> (transaction: Transaction)
        ensures
            is_fuzz_transaction(transaction, program_id@, account@),
    {
        let mut accounts: Vec<AccountMeta> = Vec::new();
        accounts.push(AccountMeta { pubkey: account, is_signer: true, is_writable: true });
        let mut data: Vec<u8> = Vec::new();
        data.push(1);
        data.push(2);
        data.push(3);
        data.push(4);
        assert(data@ =~= seq![1u8, 2u8, 3u8, 4u8]);
        let mut instructions: Vec<Instruction> = Vec::new();
        instructions.push(
            Instruction { program_id, accounts, data: InstructionData::Generic { data } },
        );
        let mut signatures: Vec<[u8; 64]> = Vec::new();
        let slot = [0u8; 64];
        assert(slot@ =~= Seq::new(64, |i: int| 0u8));
        signatures.push(slot);
        let recent_blockhash = [1u8; 32];
        assert(recent_blockhash@ =~= Seq::new(32, |i: int| 1u8));
        Transaction { instructions, signatures, payer: account.0, recent_blockhash }
    }

    /// A transaction for a program and an account whose addresses are made
    /// from the clock.
    pub fn generate_random_transaction(&self) -> (transaction: Transaction)
        ensures
            exists|program: u128, account: u128|
                is_fuzz_transaction(
                    transaction,
                    Pubkey::clock_bytes(program),
                    Pubkey::clock_bytes(account),
                ),
    {
        let program_id = Pubkey::new_unique();
        let account = Pubkey::new_unique();
        Self::transaction_for(program_id, account)
    }

    /// Runs `test_fn` on `iterations` generated transactions, one after the
    /// other, and says how many of the runs failed.
    pub fn run_fuzz_test<F>(&self, name: &str, test_fn: F) -> (failures: usize) where
        F: Fn(&Transaction) -> Result<(), TerminatorError>,

        requires
            forall|transaction: &Transaction| test_fn.requires((transaction,)),
        ensures
            failures <= self.iterations,
            exists|runs: Seq<(Transaction, Result<(), TerminatorError>)>|
                {
                    &&& runs.len() == self.iterations
                    &&& forall|i: int|
                        0 <= i < runs.len() ==> is_fuzz_run(test_fn, #[trigger] runs[i])
                    &&& failures == failed_runs(runs)
                },
    {
        let mut failures: usize = 0;
        let mut i: usize = 0;
        let ghost mut runs: Seq<(Transaction, Result<(), TerminatorError>)> = Seq::empty();
        while i < self.iterations
            invariant
                i <= self.iterations,
                failures <= i,
                forall|transaction: &Transaction| test_fn.requires((transaction,)),
                runs.len() == i,
                forall|j: int| 0 <= j < runs.len() ==> is_fuzz_run(test_fn, #[trigger] runs[j]),
                failures == failed_runs(runs),
            decreases self.iterations - i,
        {
            let transaction = self.generate_random_transaction();
            let outcome = test_fn(&transaction);
            proof {
                let before = runs;
                runs = runs.push((transaction, outcome));
                assert(runs.drop_last() =~= before);
                assert(is_fuzz_run(test_fn, runs[i as int]));
            }
            if outcome.is_err() {
                failures += 1;
            }
            i += 1;
        }
        failures
    }
}

/// `transaction` is one that a fuzz run generates: a fuzz transaction for a
/// program and an account whose addresses are made from the clock.
pub open spec fn is_generated(transaction: Transaction) -> bool {
    exists|program: u128, account: u128|
        is_fuzz_transaction(
            transaction,
            Pubkey::clock_bytes(program),
            Pubkey::clock_bytes(account),
        )
}

/// `run` is one run of a fuzz test: a generated transaction, and an outcome
/// that `test_fn` gives for it.
pub open spec fn is_fuzz_run<F: Fn(&Transaction) -> Result<(), TerminatorError>>(
    test_fn: F,
    run: (Transaction, Result<(), TerminatorError>),
) -> bool {
    &&& is_generated(run.0)
    &&& test_fn.ensures((&run.0,), run.1)
}

/// How many of `runs` ended in an error.
pub open spec fn failed_runs(runs: Seq<(Transaction, Result<(), TerminatorError>)>) -> nat
    decreases runs.len(),
{
    if runs.len() == 0 {
        0
    } else if runs.last().1 is Err {
        failed_runs(runs.drop_last()) + 1
    } else {
        failed_runs(runs.drop_last())
    }
}

} // verus!
