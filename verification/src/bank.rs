//! A bank that credits the first account of each instruction.

use crate::ledger::AccountTable;
use crate::types::{Account, Instruction, Pubkey};
use crate::{fails_with, ErrorView, TerminatorError};
use vstd::prelude::*;

verus! {

/// What each instruction credits.
pub const CREDIT: u64 = 10;

pub struct Bank {
    accounts: AccountTable,
}

impl Bank {
    /// The balance under `key`: zero where the bank holds nothing for it.
    pub closed spec fn balance(&self, key: Seq<u8>) -> u64 {
        if self.accounts@.dom().contains(key) {
            self.accounts@[key].lamports
        } else {
            0
        }
    }

    /// A bank in which every balance is zero.
    pub fn new() -> (bank: Self)
        ensures
            forall|key: Seq<u8>| bank.balance(key) == 0,
    {
        Bank { accounts: AccountTable::new() }
    }

    /// Credits `CREDIT` to the first account that `instruction` names, and
    /// changes no other balance. An instruction that names no account fails
    /// with `AccountNotFound`, and a credit that the balance has no room for
    /// fails too; no balance changes then.
    pub fn process_transaction(&mut self, instruction: &Instruction) -> (result: Result<
        (),
        TerminatorError,
    >)
        ensures
            instruction.accounts@.len() == 0 ==> fails_with(
                result,
                ErrorView::AccountNotFound("missing account"@),
            ),
            instruction.accounts@.len() > 0 && old(self).balance(instruction.accounts@[0].pubkey@)
                + CREDIT > u64::MAX ==> fails_with(
                result,
                ErrorView::TransactionExecutionFailed("Balance overflow"@),
            ),
            result is Err ==> forall|key: Seq<u8>|
                final(self).balance(key) == old(self).balance(key),
            instruction.accounts@.len() > 0 && old(self).balance(instruction.accounts@[0].pubkey@)
                + CREDIT <= u64::MAX ==> {
                &&& result is Ok
                &&& final(self).balance(instruction.accounts@[0].pubkey@) == old(self).balance(
                    instruction.accounts@[0].pubkey@,
                ) + CREDIT
                &&& forall|key: Seq<u8>|
                    key != instruction.accounts@[0].pubkey@ ==> final(self).balance(key) == old(
                        self,
                    ).balance(key)
            },
    {
        if instruction.accounts.len() == 0 {
            return Err(TerminatorError::AccountNotFound(String::from_str("missing account")));
        }
        let key = instruction.accounts[0].pubkey;
        let held = self.get_balance(&key);
        let credited = match held.checked_add(CREDIT) {
            Some(sum) => sum,
            None => {
                return Err(
                    TerminatorError::TransactionExecutionFailed(
                        String::from_str("Balance overflow"),
                    ),
                );
            },
        };
        if !self.accounts.contains_key(&key) {
            let owner = Pubkey::system_program().0;
            self.accounts.insert(key, Account::new(0, Vec::new(), owner));
        }
        self.accounts.set_lamports(&key, credited);
        Ok(())
    }

    /// The balance under `pubkey`: zero where the bank holds nothing for it.
    pub fn get_balance(&self, pubkey: &Pubkey) -> (balance: u64)
        ensures
            balance == self.balance(pubkey@),
    {
        match self.accounts.get(pubkey) {
            Some(account) => account.lamports,
            None => 0,
        }
    }
}

} // verus!
