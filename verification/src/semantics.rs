//! What the execution engine does, stated over the ledger as a map: the
//! effect of each instruction kind, the walk over a transaction's
//! instructions under a compute budget, and the size of a transaction.

use crate::ledger::LedgerView;
use crate::text::{byte_list, decimal};
use crate::bytes::zero_bytes;
use crate::types::{
    AccountMeta, AccountView, Instruction, InstructionData, Transaction,
    TOKEN_PROGRAM_ID,
};
use crate::ErrorView;
use vstd::bytes::spec_u64_from_le_bytes;
use vstd::prelude::*;

verus! {

/// The compute units that each instruction costs.
pub const INSTRUCTION_COST: u64 = 1000;

/// The least balance that a source account is created with when a transfer
/// names a source that the ledger does not hold.
pub const AUTO_FUND_FLOOR: u64 = 10_000_000;

/// The balance of an account that a legacy create instruction makes.
pub const LEGACY_CREATE_LAMPORTS: u64 = 1_000_000;

/// The amount that a legacy transfer moves when its payload is too short
/// to hold one.
pub const LEGACY_TRANSFER_LAMPORTS: u64 = 1_000_000;

/// What one instruction did: the ledger after it, the lines it logged, and
/// its failure if it failed.
pub struct Effect {
    pub ledger: LedgerView,
    pub logs: Seq<Seq<char>>,
    pub error: Option<ErrorView>,
}

/// An account without data that the system program owns.
pub open spec fn fresh_account(lamports: u64) -> AccountView {
    AccountView {
        lamports,
        data: Seq::empty(),
        owner: zero_bytes(32),
        executable: false,
        rent_epoch: 0,
    }
}

/// The balance that a missing source account is created with: twice the
/// amount of the transfer, held to the range of a balance, and at least
/// `AUTO_FUND_FLOOR`. This is a policy that keeps small ledgers
/// self-contained, not ledger semantics.
pub open spec fn auto_fund_balance(lamports: u64) -> u64 {
    if lamports * 2 > u64::MAX {
        u64::MAX
    } else if lamports * 2 > AUTO_FUND_FLOOR {
        (lamports * 2) as u64
    } else {
        AUTO_FUND_FLOOR
    }
}

/// An address as the log shows it.
pub open spec fn address_text(key: Seq<u8>) -> Seq<char> {
    "Pubkey("@ + byte_list(key) + ")"@
}

pub open spec fn transfer_line(lamports: u64, from: Seq<u8>, to: Seq<u8>) -> Seq<char> {
    "Transferring "@ + decimal(lamports as nat) + " lamports from "@ + address_text(from)
        + " to "@ + address_text(to)
}

pub open spec fn create_line(to: Seq<u8>, lamports: u64, space: u64) -> Seq<char> {
    "Creating account "@ + address_text(to) + " with "@ + decimal(lamports as nat)
        + " lamports and "@ + decimal(space as nat) + " bytes"@
}

pub open spec fn assign_line(account: Seq<u8>, owner: Seq<u8>) -> Seq<char> {
    "Assigning account "@ + address_text(account) + " to owner "@ + byte_list(owner)
}

pub open spec fn legacy_create_line(to: Seq<u8>) -> Seq<char> {
    "Creating account: "@ + address_text(to)
}

pub open spec fn unknown_line(tag: u8) -> Seq<char> {
    "Unknown system instruction: "@ + decimal(tag as nat)
}

pub open spec fn too_large_reason(size: usize, limit: usize) -> Seq<char> {
    "Transaction too large: "@ + decimal(size as nat) + " > "@ + decimal(limit as nat)
}

/// Moves `lamports` from `from`, which the ledger holds, to `to`, which is
/// created with nothing if the ledger does not hold it. The ledger stays as
/// it is where the source has too little or the target would hold more than
/// a balance can.
pub open spec fn settle(
    ledger: LedgerView,
    from: Seq<u8>,
    to: Seq<u8>,
    lamports: u64,
    logs: Seq<Seq<char>>,
) -> Effect
    recommends
        ledger.dom().contains(from),
{
    if ledger[from].lamports < lamports {
        Effect { ledger, logs, error: Some(ErrorView::InsufficientFunds) }
    } else {
        let debited = ledger.insert(
            from,
            AccountView { lamports: (ledger[from].lamports - lamports) as u64, ..ledger[from] },
        );
        let target = if debited.dom().contains(to) {
            debited[to]
        } else {
            fresh_account(0)
        };
        if target.lamports + lamports > u64::MAX {
            Effect {
                ledger,
                logs,
                error: Some(ErrorView::TransactionExecutionFailed("Balance overflow"@)),
            }
        } else {
            Effect {
                ledger: debited.insert(
                    to,
                    AccountView { lamports: (target.lamports + lamports) as u64, ..target },
                ),
                logs,
                error: None,
            }
        }
    }
}

/// A transfer of the system program. A source that the ledger does not hold
/// is first created with `auto_fund_balance(lamports)`.
pub open spec fn transfer_effect(
    ledger: LedgerView,
    from: Seq<u8>,
    to: Seq<u8>,
    lamports: u64,
) -> Effect {
    if ledger.dom().contains(from) {
        settle(ledger, from, to, lamports, seq![transfer_line(lamports, from, to)])
    } else {
        settle(
            ledger.insert(from, fresh_account(auto_fund_balance(lamports))),
            from,
            to,
            lamports,
            seq![
                transfer_line(lamports, from, to),
                "Creating from account with initial balance for demo"@,
            ],
        )
    }
}

/// Account creation of the system program: the entry for `to` is put or
/// replaced, and no balance is debited.
pub open spec fn create_account_effect(
    ledger: LedgerView,
    to: Seq<u8>,
    lamports: u64,
    space: u64,
    owner: Seq<u8>,
) -> Effect {
    if space > usize::MAX {
        Effect {
            ledger,
            logs: seq![create_line(to, lamports, space)],
            error: Some(ErrorView::TransactionExecutionFailed("Account data too large"@)),
        }
    } else {
        Effect {
            ledger: ledger.insert(
                to,
                AccountView {
                    lamports,
                    data: zero_bytes(space as nat),
                    owner,
                    executable: false,
                    rent_epoch: 0,
                },
            ),
            logs: seq![create_line(to, lamports, space)],
            error: None,
        }
    }
}

/// Assignment of the system program: the owner of `account` changes if the
/// ledger holds it, and nothing happens if it does not.
pub open spec fn assign_effect(ledger: LedgerView, account: Seq<u8>, owner: Seq<u8>) -> Effect {
    Effect {
        ledger: if ledger.dom().contains(account) {
            ledger.insert(account, AccountView { owner, ..ledger[account] })
        } else {
            ledger
        },
        logs: seq![assign_line(account, owner)],
        error: None,
    }
}

/// The legacy create instruction: the second account named is put or
/// replaced with a fresh account of `LEGACY_CREATE_LAMPORTS`.
pub open spec fn legacy_create_effect(ledger: LedgerView, accounts: Seq<AccountMeta>) -> Effect {
    if accounts.len() < 2 {
        Effect {
            ledger,
            logs: Seq::empty(),
            error: Some(
                ErrorView::TransactionExecutionFailed(
                    "CreateAccount requires at least 2 accounts"@,
                ),
            ),
        }
    } else {
        Effect {
            ledger: ledger.insert(accounts[1].pubkey@, fresh_account(LEGACY_CREATE_LAMPORTS)),
            logs: seq![legacy_create_line(accounts[1].pubkey@)],
            error: None,
        }
    }
}

/// The legacy assign instruction changes nothing.
pub open spec fn legacy_assign_effect(ledger: LedgerView) -> Effect {
    Effect { ledger, logs: seq!["Handling assign instruction"@], error: None }
}

/// The amount of a legacy transfer: bytes 1 to 8 of the payload as a
/// little-endian number, or `LEGACY_TRANSFER_LAMPORTS` where the payload
/// has fewer than nine bytes.
pub open spec fn legacy_transfer_amount(data: Seq<u8>) -> u64 {
    if data.len() >= 9 {
        spec_u64_from_le_bytes(data.subrange(1, 9))
    } else {
        LEGACY_TRANSFER_LAMPORTS
    }
}

/// The legacy transfer instruction moves its amount from the first account
/// named to the second. The source is not created: a ledger without it
/// fails the instruction.
pub open spec fn legacy_transfer_effect(
    ledger: LedgerView,
    accounts: Seq<AccountMeta>,
    data: Seq<u8>,
) -> Effect {
    if accounts.len() < 2 {
        Effect {
            ledger,
            logs: Seq::empty(),
            error: Some(
                ErrorView::TransactionExecutionFailed("Transfer requires at least 2 accounts"@),
            ),
        }
    } else {
        let from = accounts[0].pubkey@;
        let to = accounts[1].pubkey@;
        let lamports = legacy_transfer_amount(data);
        let logs = seq![transfer_line(lamports, from, to)];
        if !ledger.dom().contains(from) {
            Effect { ledger, logs, error: Some(ErrorView::AccountNotFound(address_text(from))) }
        } else {
            settle(ledger, from, to, lamports, logs)
        }
    }
}

/// A raw payload of the system program, told apart by its first byte.
pub open spec fn legacy_effect(
    ledger: LedgerView,
    accounts: Seq<AccountMeta>,
    data: Seq<u8>,
) -> Effect {
    if data.len() == 0 {
        Effect { ledger, logs: Seq::empty(), error: None }
    } else if data[0] == 0 {
        legacy_create_effect(ledger, accounts)
    } else if data[0] == 1 {
        legacy_assign_effect(ledger)
    } else if data[0] == 2 {
        legacy_transfer_effect(ledger, accounts, data)
    } else {
        Effect { ledger, logs: seq![unknown_line(data[0])], error: None }
    }
}

/// The effect of the payload alone, before the line that the system
/// program logs for every instruction.
pub open spec fn payload_effect(ledger: LedgerView, instruction: Instruction) -> Effect {
    match instruction.data {
        InstructionData::Transfer { from, to, lamports } => transfer_effect(
            ledger,
            from@,
            to@,
            lamports,
        ),
        InstructionData::CreateAccount { from, to, lamports, space, owner } => {
            create_account_effect(ledger, to@, lamports, space, owner@)
        },
        InstructionData::Assign { account, owner } => assign_effect(ledger, account@, owner@),
        InstructionData::Generic { data } => legacy_effect(ledger, instruction.accounts@, data@),
    }
}

/// One instruction of the system program.
pub open spec fn system_effect(ledger: LedgerView, instruction: Instruction) -> Effect {
    let inner = payload_effect(ledger, instruction);
    Effect {
        ledger: inner.ledger,
        logs: seq!["Processing system program instruction"@] + inner.logs,
        error: inner.error,
    }
}

/// One instruction, routed by the address of its program: the system
/// program, the token program, or any other. The last two only log.
pub open spec fn instruction_effect(ledger: LedgerView, instruction: Instruction) -> Effect {
    if instruction.program_id@ == zero_bytes(32) {
        system_effect(ledger, instruction)
    } else if instruction.program_id@ == TOKEN_PROGRAM_ID@ {
        Effect { ledger, logs: seq!["Processing token program instruction"@], error: None }
    } else {
        Effect { ledger, logs: seq!["Processing generic program instruction"@], error: None }
    }
}

/// Where a transaction stands while its instructions are applied in order.
pub struct Progress {
    pub ledger: LedgerView,
    pub remaining: u64,
    pub logs: Seq<Seq<char>>,
    /// How many instructions were handed to their program, the failed one
    /// included.
    pub dispatched: nat,
    pub error: Option<ErrorView>,
}

/// The start of a transaction: nothing logged, the whole budget left.
pub open spec fn start(ledger: LedgerView, budget: u64) -> Progress {
    Progress { ledger, remaining: budget, logs: Seq::empty(), dispatched: 0, error: None }
}

/// One step: pay for the next instruction and apply it. Without enough
/// budget the transaction stops and everything else stays as it is.
pub open spec fn step(progress: Progress, instruction: Instruction) -> Progress {
    if progress.remaining < INSTRUCTION_COST {
        Progress {
            error: Some(ErrorView::TransactionExecutionFailed("Compute budget exceeded"@)),
            ..progress
        }
    } else {
        let effect = instruction_effect(progress.ledger, instruction);
        Progress {
            ledger: effect.ledger,
            remaining: (progress.remaining - INSTRUCTION_COST) as u64,
            logs: progress.logs + effect.logs,
            dispatched: progress.dispatched + 1,
            error: effect.error,
        }
    }
}

/// Applies the first `count` instructions in order and stops at the first
/// failure. What earlier instructions did to the ledger stays done.
pub open spec fn run(
    ledger: LedgerView,
    budget: u64,
    instructions: Seq<Instruction>,
    count: nat,
) -> Progress
    recommends
        count <= instructions.len(),
    decreases count,
{
    if count == 0 {
        start(ledger, budget)
    } else {
        let before = run(ledger, budget, instructions, (count - 1) as nat);
        if before.error is Some {
            before
        } else {
            step(before, instructions[count - 1])
        }
    }
}

/// Once a failure has stopped a transaction, further instructions change
/// nothing.
pub proof fn lemma_run_stops(
    ledger: LedgerView,
    budget: u64,
    instructions: Seq<Instruction>,
    at: nat,
    later: nat,
)
    requires
        at <= later,
        run(ledger, budget, instructions, at).error is Some,
    ensures
        run(ledger, budget, instructions, later) == run(ledger, budget, instructions, at),
    decreases later,
{
    if at < later {
        lemma_run_stops(ledger, budget, instructions, at, (later - 1) as nat);
    }
}

/// A transfer between two accounts that the ledger holds, the source with
/// at least the amount, neither makes nor loses lamports when it succeeds:
/// the two balances add up to what they added up to before. Between two
/// different accounts the source then holds the amount less, the target the
/// amount more, and every other entry is as it was.
pub proof fn lemma_transfer_conserves(ledger: LedgerView, a: Seq<u8>, b: Seq<u8>, lamports: u64)
    requires
        ledger.dom().contains(a),
        ledger.dom().contains(b),
        ledger[a].lamports >= lamports,
        transfer_effect(ledger, a, b, lamports).error is None,
    ensures
        ({
            let after = transfer_effect(ledger, a, b, lamports).ledger;
            &&& after.dom() == ledger.dom()
            &&& after[a].lamports + after[b].lamports == ledger[a].lamports + ledger[b].lamports
            &&& a != b ==> after[a].lamports == ledger[a].lamports - lamports
            &&& a != b ==> after[b].lamports == ledger[b].lamports + lamports
            &&& forall|k: Seq<u8>| k != a && k != b ==> after[k] == ledger[k]
        }),
{
    let after = transfer_effect(ledger, a, b, lamports).ledger;
    assert(after.dom() =~= ledger.dom());
}

/// A transfer between two accounts that the ledger holds succeeds exactly
/// when the source holds the amount and the target has room for it.
pub proof fn lemma_transfer_succeeds(ledger: LedgerView, a: Seq<u8>, b: Seq<u8>, lamports: u64)
    requires
        ledger.dom().contains(a),
        ledger.dom().contains(b),
    ensures
        transfer_effect(ledger, a, b, lamports).error is None <==> ledger[a].lamports >= lamports
            && (a == b || ledger[b].lamports + lamports <= u64::MAX),
{
}

/// A transfer of more than its source holds fails for want of funds and
/// leaves the ledger, and so both balances, as they were.
pub proof fn lemma_transfer_insufficient(
    ledger: LedgerView,
    a: Seq<u8>,
    b: Seq<u8>,
    lamports: u64,
)
    requires
        ledger.dom().contains(a),
        lamports > ledger[a].lamports,
    ensures
        transfer_effect(ledger, a, b, lamports).error == Some(ErrorView::InsufficientFunds),
        transfer_effect(ledger, a, b, lamports).ledger == ledger,
{
}

/// Each instruction that is handed to its program has been paid for: the
/// units left and the units spent add up to the budget, so no more than
/// `budget / INSTRUCTION_COST` instructions are ever dispatched.
pub proof fn lemma_dispatch_is_paid(
    ledger: LedgerView,
    budget: u64,
    instructions: Seq<Instruction>,
    count: nat,
)
    ensures
        ({
            let end = run(ledger, budget, instructions, count);
            &&& end.dispatched <= count
            &&& end.remaining + INSTRUCTION_COST * end.dispatched == budget
            &&& end.dispatched <= budget / INSTRUCTION_COST
            &&& end.error is None ==> end.dispatched == count
        }),
    decreases count,
{
    if count > 0 {
        lemma_dispatch_is_paid(ledger, budget, instructions, (count - 1) as nat);
    }
}

/// A transaction with more instructions than its budget pays for, none of
/// the paid ones failing, stops with "Compute budget exceeded": it has then
/// dispatched `budget / INSTRUCTION_COST` instructions and no more, and the
/// ledger is as those left it.
pub proof fn lemma_compute_exhaustion(
    ledger: LedgerView,
    budget: u64,
    instructions: Seq<Instruction>,
)
    requires
        instructions.len() * INSTRUCTION_COST > budget,
        run(ledger, budget, instructions, (budget / INSTRUCTION_COST) as nat).error is None,
    ensures
        ({
            let paid = (budget / INSTRUCTION_COST) as nat;
            let end = run(ledger, budget, instructions, instructions.len());
            &&& end.error == Some(
                ErrorView::TransactionExecutionFailed("Compute budget exceeded"@),
            )
            &&& end.dispatched == paid
            &&& end.ledger == run(ledger, budget, instructions, paid).ledger
            &&& end.logs == run(ledger, budget, instructions, paid).logs
        }),
{
    let paid = (budget / INSTRUCTION_COST) as nat;
    lemma_dispatch_is_paid(ledger, budget, instructions, paid);
    let covered = run(ledger, budget, instructions, paid);
    assert(covered.remaining < INSTRUCTION_COST);
    assert(paid < instructions.len());
    let stopped = run(ledger, budget, instructions, paid + 1);
    assert(stopped == step(covered, instructions[paid as int]));
    lemma_run_stops(ledger, budget, instructions, paid + 1, instructions.len());
}

/// The bytes that the payload of an instruction takes in a serialized
/// transaction.
pub open spec fn payload_size(data: InstructionData) -> nat {
    match data {
        InstructionData::Transfer { .. } => 92,
        InstructionData::CreateAccount { .. } => 140,
        InstructionData::Assign { .. } => 84,
        InstructionData::Generic { data } => 12 + data@.len(),
    }
}

/// The bytes that one instruction takes: the program address, the counted
/// list of accounts at 34 bytes each, and the payload.
pub open spec fn instruction_size(instruction: Instruction) -> nat {
    40 + 34 * instruction.accounts@.len() + payload_size(instruction.data)
}

/// The bytes that the first `count` instructions take together.
pub open spec fn instructions_size(instructions: Seq<Instruction>, count: nat) -> nat
    recommends
        count <= instructions.len(),
    decreases count,
{
    if count == 0 {
        0
    } else {
        instructions_size(instructions, (count - 1) as nat) + instruction_size(
            instructions[count - 1],
        )
    }
}

/// The serialized size of a transaction: the counted list of instructions,
/// the counted list of signatures at 72 bytes each, and 40 bytes each for
/// payer and blockhash.
pub open spec fn transaction_size(transaction: Transaction) -> nat {
    96 + instructions_size(transaction.instructions@, transaction.instructions@.len()) + 72
        * transaction.signatures@.len()
}

} // verus!
