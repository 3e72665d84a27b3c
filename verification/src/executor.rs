//! A transaction executor that reports success without running anything.

use crate::types::{line_texts, Transaction, TransactionResult};
use crate::TerminatorError;
use vstd::prelude::*;

verus! {

pub struct TransactionExecutor {
    pub compute_budget: u64,
}

impl TransactionExecutor {
    pub fn new(compute_budget: u64) -> (executor: Self)
        ensures
            executor.compute_budget == compute_budget,
    {
        TransactionExecutor { compute_budget }
    }

    /// Reports every transaction as executed, for a fixed 100 compute units
    /// and with one line logged.
    pub fn execute(&self, _transaction: &Transaction) -> (result: Result<
        TransactionResult,
        TerminatorError,
    >)
        ensures
            result matches Ok(done) && done.success && done.compute_units_consumed == 100
                && line_texts(done.logs@) == seq!["Transaction executed successfully"@]
                && done.error is None,
    {
        let mut logs: Vec<String> = Vec::new();
        logs.push(String::from_str("Transaction executed successfully"));
        assert(line_texts(logs@) =~= seq!["Transaction executed successfully"@]);
        Ok(TransactionResult { success: true, compute_units_consumed: 100, logs, error: None })
    }
}

} // verus!
