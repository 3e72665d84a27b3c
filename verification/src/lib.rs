//! A minimal ledger-execution engine for Solana-style transactions.
//!
//! The engine decodes transactions from their wire format, checks their
//! structure and signatures, and applies their instructions to an in-memory
//! account ledger under a bounded compute budget.

pub mod bank;
pub mod bytes;
pub mod capability;
pub mod conformance;
pub mod crypto;
pub mod executor;
pub mod firedancer_integration;
pub mod fuzzing;
pub mod json;
pub mod ledger;
pub mod runtime;
pub mod semantics;
pub mod solana_format;
pub mod text;
pub mod types;
pub mod utils;
pub mod wire;

pub use bank::Bank;
pub use conformance::ConformanceHarness;
pub use crypto::{AddressDerivation, FastCrypto, SolanaCrypto};
pub use executor::TransactionExecutor;
pub use firedancer_integration::{FiredancerConformanceTest, FiredancerCrypto, FiredancerValidator};
pub use fuzzing::RuntimeFuzzer;
pub use runtime::TerminatorRuntime;
pub use solana_format::{SolanaHash, SolanaPubkey, SolanaTransaction, SolanaTransactionParser};
pub use types::{
    Account, AccountMeta, Instruction, InstructionData, Pubkey, Transaction, TransactionResult,
};
use vstd::prelude::*;

verus! {

/// Every failure the engine reports. A failed call surfaces exactly one.
#[derive(Debug, Clone)]
pub enum TerminatorError {
    TransactionExecutionFailed(String),
    AccountNotFound(String),
    InsufficientFunds,
    InvalidSignature,
    ProgramError(String),
    SerializationError(String),
    ConformanceTestFailed(String),
}

/// What a `TerminatorError` says: its kind and the text it carries.
pub enum ErrorView {
    TransactionExecutionFailed(Seq<char>),
    AccountNotFound(Seq<char>),
    InsufficientFunds,
    InvalidSignature,
    ProgramError(Seq<char>),
    SerializationError(Seq<char>),
    ConformanceTestFailed(Seq<char>),
}

impl ErrorView {
    /// The line a user reads for this error.
    pub open spec fn message(self) -> Seq<char> {
        match self {
            ErrorView::TransactionExecutionFailed(reason) => "Transaction execution failed: "@
                + reason,
            ErrorView::AccountNotFound(address) => "Account not found: "@ + address,
            ErrorView::InsufficientFunds => "Insufficient funds"@,
            ErrorView::InvalidSignature => "Invalid signature"@,
            ErrorView::ProgramError(reason) => "Program error: "@ + reason,
            ErrorView::SerializationError(reason) => "Serialization error: "@ + reason,
            ErrorView::ConformanceTestFailed(reason) => "Conformance test failed: "@ + reason,
        }
    }
}

impl View for TerminatorError {
    type V = ErrorView;

    open spec fn view(&self) -> ErrorView {
        match self {
            TerminatorError::TransactionExecutionFailed(reason) => {
                ErrorView::TransactionExecutionFailed(reason@)
            },
            TerminatorError::AccountNotFound(address) => ErrorView::AccountNotFound(address@),
            TerminatorError::InsufficientFunds => ErrorView::InsufficientFunds,
            TerminatorError::InvalidSignature => ErrorView::InvalidSignature,
            TerminatorError::ProgramError(reason) => ErrorView::ProgramError(reason@),
            TerminatorError::SerializationError(reason) => ErrorView::SerializationError(reason@),
            TerminatorError::ConformanceTestFailed(reason) => {
                ErrorView::ConformanceTestFailed(reason@)
            },
        }
    }
}

/// `result` is the failure that `error` describes.
pub open spec fn fails_with<T>(result: Result<T, TerminatorError>, error: ErrorView) -> bool {
    match result {
        Ok(_) => false,
        Err(e) => e@ == error,
    }
}

impl TerminatorError {
    /// The line a user reads for this error.
    pub fn to_string(&self) -> (line: String)
        ensures
            line@ == self@.message(),
    {
        match self {
            TerminatorError::TransactionExecutionFailed(reason) => {
                String::from_str("Transaction execution failed: ").concat(reason.as_str())
            },
            TerminatorError::AccountNotFound(address) => {
                String::from_str("Account not found: ").concat(address.as_str())
            },
            TerminatorError::InsufficientFunds => String::from_str("Insufficient funds"),
            TerminatorError::InvalidSignature => String::from_str("Invalid signature"),
            TerminatorError::ProgramError(reason) => {
                String::from_str("Program error: ").concat(reason.as_str())
            },
            TerminatorError::SerializationError(reason) => {
                String::from_str("Serialization error: ").concat(reason.as_str())
            },
            TerminatorError::ConformanceTestFailed(reason) => {
                String::from_str("Conformance test failed: ").concat(reason.as_str())
            },
        }
    }
}

} // verus!
