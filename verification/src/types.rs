//! The data the engine works on: addresses, accounts, instructions,
//! transactions, and the settings a runtime is built from.

use crate::bytes::{bytes32_equal, copy_bytes, zero_bytes};
use crate::ledger::AccountTable;
use crate::utils::time_since_epoch;
use vstd::bytes::{spec_u128_to_le_bytes, u128_to_le_bytes};
use vstd::prelude::*;

verus! {

/// The address of the token program.
pub const TOKEN_PROGRAM_ID: [u8; 32] = [
    6, 221, 246, 225, 215, 101, 161, 147, 217, 203, 225, 70, 206, 235, 121, 172,
    28, 180, 133, 237, 95, 91, 55, 145, 58, 140, 245, 133, 126, 255, 0, 169,
];

/// A 32-byte account or program address. Two addresses are equal when
/// their bytes are.
#[derive(Debug, Clone, Copy, Eq, Hash)]
pub struct Pubkey(pub [u8; 32]);

impl PartialEq for Pubkey {
    fn eq(&self, other: &Pubkey) -> (same: bool) {
        bytes32_equal(&self.0, &other.0)
    }
}

impl vstd::std_specs::cmp::PartialEqSpecImpl for Pubkey {
    open spec fn obeys_eq_spec() -> bool {
        true
    }

    open spec fn eq_spec(&self, other: &Pubkey) -> bool {
        self.0@ == other.0@
    }
}

impl View for Pubkey {
    type V = Seq<u8>;

    open spec fn view(&self) -> Seq<u8> {
        self.0@
    }
}

impl Pubkey {
    /// The bytes of the address made from a clock reading of `nanos`
    /// nanoseconds: the reading in little-endian order, then sixteen zeros.
    pub open spec fn clock_bytes(nanos: u128) -> Seq<u8> {
        spec_u128_to_le_bytes(nanos) + zero_bytes(16)
    }

    /// Different clock readings give different addresses.
    pub proof fn lemma_clock_bytes_differ(first: u128, second: u128)
        requires
            Self::clock_bytes(first) == Self::clock_bytes(second),
        ensures
            first == second,
    {
        vstd::bytes::lemma_auto_spec_u128_to_from_le_bytes();
        let a = spec_u128_to_le_bytes(first);
        let b = spec_u128_to_le_bytes(second);
        assert(a =~= Self::clock_bytes(first).subrange(0, 16));
        assert(b =~= Self::clock_bytes(second).subrange(0, 16));
        assert(vstd::bytes::spec_u128_from_le_bytes(a) == first);
        assert(vstd::bytes::spec_u128_from_le_bytes(b) == second);
    }

    pub fn new(bytes: [u8; 32]) -> (key: Self)
        ensures
            key.0 == bytes,
    {
        Pubkey(bytes)
    }

    /// The address that a clock reading of `nanos` nanoseconds gives.
    pub fn from_nanos(nanos: u128) -> (key: Self)
        ensures
            key@ == Self::clock_bytes(nanos),
    {
        let low = u128_to_le_bytes(nanos);
        proof {
            vstd::bytes::lemma_auto_spec_u128_to_from_le_bytes();
        }
        let mut bytes = [0u8; 32];
        let mut i: usize = 0;
        while i < 16
            invariant
                i <= 16,
                low@.len() == 16,
                forall|j: int| 0 <= j < i ==> bytes@[j] == low@[j],
                forall|j: int| i <= j < 32 ==> bytes@[j] == 0u8,
            decreases 16 - i,
        {
            bytes[i] = low[i];
            i += 1;
        }
        assert(bytes@ =~= Self::clock_bytes(nanos));
        Pubkey(bytes)
    }

    /// An address made from the current time, by `from_nanos`.
    pub fn new_unique() -> (key: Self)
        ensures
            exists|nanos: u128| key@ == Self::clock_bytes(nanos),
    {
        let (secs, subsec) = time_since_epoch();
        let nanos: u128 = secs as u128 * 1_000_000_000 + subsec as u128;
        Self::from_nanos(nanos)
    }

    /// The system program: thirty-two zero bytes.
    pub fn system_program() -> (key: Self)
        ensures
            key@ == zero_bytes(32),
    {
        let key = Pubkey([0u8; 32]);
        assert(key@ =~= zero_bytes(32));
        key
    }

    /// The token program.
    pub fn token_program() -> (key: Self)
        ensures
            key.0 == TOKEN_PROGRAM_ID,
    {
        Pubkey(TOKEN_PROGRAM_ID)
    }
}

/// What one ledger entry holds.
pub struct AccountView {
    pub lamports: u64,
    pub data: Seq<u8>,
    pub owner: Seq<u8>,
    pub executable: bool,
    pub rent_epoch: u64,
}

/// One ledger entry.
#[derive(Debug, Clone)]
pub struct Account {
    pub lamports: u64,
    pub data: Vec<u8>,
    pub owner: [u8; 32],
    pub executable: bool,
    pub rent_epoch: u64,
}

impl View for Account {
    type V = AccountView;

    open spec fn view(&self) -> AccountView {
        AccountView {
            lamports: self.lamports,
            data: self.data@,
            owner: self.owner@,
            executable: self.executable,
            rent_epoch: self.rent_epoch,
        }
    }
}

impl Account {
    pub fn new(lamports: u64, data: Vec<u8>, owner: [u8; 32]) -> (account: Self)
        ensures
            account@ == (AccountView {
                lamports,
                data: data@,
                owner: owner@,
                executable: false,
                rent_epoch: 0,
            }),
    {
        Account { lamports, data, owner, executable: false, rent_epoch: 0 }
    }

    pub fn new_executable(lamports: u64, data: Vec<u8>, owner: [u8; 32]) -> (account: Self)
        ensures
            account@ == (AccountView {
                lamports,
                data: data@,
                owner: owner@,
                executable: true,
                rent_epoch: 0,
            }),
    {
        Account { lamports, data, owner, executable: true, rent_epoch: 0 }
    }

    /// A copy that holds the same values.
    pub fn duplicate(&self) -> (copy: Self)
        ensures
            copy@ == self@,
    {
        Account {
            lamports: self.lamports,
            data: copy_bytes(self.data.as_slice()),
            owner: self.owner,
            executable: self.executable,
            rent_epoch: self.rent_epoch,
        }
    }
}

/// An address as one instruction names it, with the access it asks for.
#[derive(Debug, Clone)]
pub struct AccountMeta {
    pub pubkey: Pubkey,
    pub is_signer: bool,
    pub is_writable: bool,
}

/// What an instruction asks the program to do.
#[derive(Debug, Clone)]
pub enum InstructionData {
    Transfer { from: [u8; 32], to: [u8; 32], lamports: u64 },
    CreateAccount { from: [u8; 32], to: [u8; 32], lamports: u64, space: u64, owner: [u8; 32] },
    Assign { account: [u8; 32], owner: [u8; 32] },
    Generic { data: Vec<u8> },
}

/// One unit of work: a program, the accounts it names, and a payload.
#[derive(Debug, Clone)]
pub struct Instruction {
    pub program_id: Pubkey,
    pub accounts: Vec<AccountMeta>,
    pub data: InstructionData,
}

/// Instructions in order, their signature slots, the payer, and the
/// blockhash that the signatures are bound to.
#[derive(Debug, Clone)]
pub struct Transaction {
    pub instructions: Vec<Instruction>,
    pub signatures: Vec<[u8; 64]>,
    pub payer: [u8; 32],
    pub recent_blockhash: [u8; 32],
}

/// What a completed transaction reports.
#[derive(Debug, Clone)]
pub struct TransactionResult {
    pub success: bool,
    pub compute_units_consumed: u64,
    pub logs: Vec<String>,
    pub error: Option<String>,
}

/// The text of each line of `lines`.
pub open spec fn line_texts(lines: Seq<String>) -> Seq<Seq<char>> {
    Seq::new(lines.len(), |i: int| lines[i]@)
}

#[derive(Debug, Clone)]
pub struct RuntimeSettings {
    pub compute_budget: u64,
    pub max_transaction_size: usize,
    pub enable_fuzzing: bool,
    pub conformance_testing: bool,
}

#[derive(Debug, Clone)]
pub struct BankSettings {
    pub initial_lamports: u64,
    pub rent_collection_enabled: bool,
    pub fee_rate_governor_enabled: bool,
}

#[derive(Debug, Clone)]
pub struct LoggingSettings {
    pub level: String,
    pub enable_transaction_logs: bool,
    pub enable_execution_traces: bool,
}

#[derive(Debug, Clone)]
pub struct PerformanceSettings {
    pub max_concurrent_transactions: u32,
    pub cache_size_mb: u32,
    pub gc_threshold_mb: u32,
}

#[derive(Debug, Clone)]
pub struct NetworkingSettings {
    pub max_connections: u32,
    pub connection_timeout_ms: u32,
}

#[derive(Debug, Clone)]
pub struct TestingSettings {
    pub fuzz_iterations: u32,
    pub differential_testing: bool,
    pub property_testing: bool,
}

/// Everything a runtime is configured with.
#[derive(Debug, Clone)]
pub struct RuntimeConfig {
    pub runtime: RuntimeSettings,
    pub bank: BankSettings,
    pub logging: LoggingSettings,
    pub performance: PerformanceSettings,
    pub networking: NetworkingSettings,
    pub testing: TestingSettings,
}

impl Default for RuntimeConfig {
    /// The settings used where no configuration is given.
    fn default() -> (config: Self)
        ensures
            config.runtime.compute_budget == 1_400_000,
            config.runtime.max_transaction_size == 1232,
            !config.runtime.enable_fuzzing,
            !config.runtime.conformance_testing,
            config.bank.initial_lamports == 1_000_000_000_000,
            config.bank.rent_collection_enabled,
            config.bank.fee_rate_governor_enabled,
            config.logging.level@ == "info"@,
            config.logging.enable_transaction_logs,
            config.logging.enable_execution_traces,
            config.performance.max_concurrent_transactions == 1000,
            config.performance.cache_size_mb == 512,
            config.performance.gc_threshold_mb == 1024,
            config.networking.max_connections == 1000,
            config.networking.connection_timeout_ms == 5000,
            config.testing.fuzz_iterations == 1000,
            config.testing.differential_testing,
            config.testing.property_testing,
    {
        RuntimeConfig {
            runtime: RuntimeSettings {
                compute_budget: 1_400_000,
                max_transaction_size: 1232,
                enable_fuzzing: false,
                conformance_testing: false,
            },
            bank: BankSettings {
                initial_lamports: 1_000_000_000_000,
                rent_collection_enabled: true,
                fee_rate_governor_enabled: true,
            },
            logging: LoggingSettings {
                level: String::from_str("info"),
                enable_transaction_logs: true,
                enable_execution_traces: true,
            },
            performance: PerformanceSettings {
                max_concurrent_transactions: 1000,
                cache_size_mb: 512,
                gc_threshold_mb: 1024,
            },
            networking: NetworkingSettings { max_connections: 1000, connection_timeout_ms: 5000 },
            testing: TestingSettings {
                fuzz_iterations: 1000,
                differential_testing: true,
                property_testing: true,
            },
        }
    }
}

/// The fee charged for each signature.
#[derive(Debug, Clone)]
pub struct FeeCalculator {
    pub lamports_per_signature: u64,
}

impl Default for FeeCalculator {
    fn default() -> (fees: Self)
        ensures
            fees.lamports_per_signature == 5000,
    {
        FeeCalculator { lamports_per_signature: 5000 }
    }
}

/// The state that transactions change: the account ledger, and the slot,
/// blockhash and fees that go with it.
#[derive(Debug, Clone)]
pub struct BankState {
    pub accounts: AccountTable,
    pub slot: u64,
    pub blockhash: [u8; 32],
    pub fee_calculator: FeeCalculator,
}

impl BankState {
    /// An empty ledger at slot zero.
    pub fn new() -> (state: Self)
        ensures
            state.accounts@ == Map::<Seq<u8>, AccountView>::empty(),
            state.slot == 0,
            state.blockhash@ == zero_bytes(32),
            state.fee_calculator.lamports_per_signature == 5000,
    {
        let blockhash = [0u8; 32];
        assert(blockhash@ =~= zero_bytes(32));
        BankState {
            accounts: AccountTable::new(),
            slot: 0,
            blockhash,
            fee_calculator: FeeCalculator::default(),
        }
    }
}

/// The accumulator of one transaction: the compute units that are left and
/// the lines logged so far.
#[derive(Debug, Clone)]
pub struct ExecutionContext {
    pub compute_units_remaining: u64,
    pub log_messages: Vec<String>,
}

impl ExecutionContext {
    pub fn new(compute_budget: u64) -> (context: Self)
        ensures
            context.compute_units_remaining == compute_budget,
            context.log_messages@.len() == 0,
    {
        ExecutionContext { compute_units_remaining: compute_budget, log_messages: Vec::new() }
    }

    /// Takes `units` from what is left if that much is left, and says
    /// whether it did. The log is not touched.
    pub fn consume_compute_units(&mut self, units: u64) -> (consumed: bool)
        ensures
            consumed == (old(self).compute_units_remaining >= units),
            consumed ==> final(self).compute_units_remaining == old(self).compute_units_remaining
                - units,
            !consumed ==> final(self).compute_units_remaining == old(
                self,
            ).compute_units_remaining,
            final(self).log_messages == old(self).log_messages,
    {
        if self.compute_units_remaining >= units {
            self.compute_units_remaining -= units;
            true
        } else {
            false
        }
    }

    /// Appends one line to the log.
    pub fn log(&mut self, message: String)
        ensures
            final(self).log_messages@ == old(self).log_messages@.push(message),
            final(self).compute_units_remaining == old(self).compute_units_remaining,
    {
        self.log_messages.push(message);
    }
}

} // verus!
