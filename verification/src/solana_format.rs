//! Transactions as they travel: signatures, and a message whose
//! instructions name their accounts by place in a table of keys.

use crate::bytes::{append_bytes, bytes32_equal, to_array32, zero_bytes};
use crate::wire;
use crate::{fails_with, ErrorView, TerminatorError};
use vstd::bytes::{spec_u64_to_le_bytes, u64_to_le_bytes};
use vstd::prelude::*;
use vstd::slice::slice_subrange;

verus! {

/// The text of `bytes` in base 58, in the Bitcoin alphabet.
pub uninterp spec fn base58_text(bytes: Seq<u8>) -> Seq<char>;

/// The bytes that `text` stands for in base 58, if it is base 58.
pub uninterp spec fn base58_bytes(text: Seq<char>) -> Option<Seq<u8>>;

/// `bs58::decode::Error`, which is carried through and not looked into.
#[verifier::external_type_specification]
#[verifier::external_body]
pub struct ExBase58Error(bs58::decode::Error);

/// Calls `bs58::encode` and `EncodeBuilder::into_string`. Trusted: the
/// string that comes back is the base-58 text of `bytes`, a function of
/// `bytes` alone.
#[verifier::external_body]
fn base58_encode(bytes: &[u8]) -> (text: String)
    ensures
        text@ == base58_text(bytes@),
{
    bs58::encode(bytes).into_string()
}

/// Calls `bs58::decode` and `DecodeBuilder::into_vec`. Trusted: whether
/// bytes come back, and which, depends on `text` alone.
#[verifier::external_body]
fn base58_decode(text: &str) -> (decoded: Result<Vec<u8>, bs58::decode::Error>)
    ensures
        match decoded {
            Ok(bytes) => base58_bytes(text@) == Some(bytes@),
            Err(_) => base58_bytes(text@) is None,
        },
{
    bs58::decode(text).into_vec()
}

/// The counts that open a message.
#[derive(Debug, Clone)]
pub struct MessageHeader {
    pub num_required_signatures: u8,
    pub num_readonly_signed_accounts: u8,
    pub num_readonly_unsigned_accounts: u8,
}

/// A 32-byte address. Two addresses are equal when their bytes are.
#[derive(Debug, Clone, Copy, Eq, Hash)]
pub struct SolanaPubkey(pub [u8; 32]);

impl PartialEq for SolanaPubkey {
    fn eq(&self, other: &SolanaPubkey) -> (same: bool) {
        bytes32_equal(&self.0, &other.0)
    }
}

impl vstd::std_specs::cmp::PartialEqSpecImpl for SolanaPubkey {
    open spec fn obeys_eq_spec() -> bool {
        true
    }

    open spec fn eq_spec(&self, other: &SolanaPubkey) -> bool {
        self.0@ == other.0@
    }
}

impl View for SolanaPubkey {
    type V = Seq<u8>;

    open spec fn view(&self) -> Seq<u8> {
        self.0@
    }
}

/// A 64-byte signature slot.
#[derive(Debug, Clone)]
pub struct SolanaSignature(pub [u8; 64]);

impl View for SolanaSignature {
    type V = Seq<u8>;

    open spec fn view(&self) -> Seq<u8> {
        self.0@
    }
}

/// A 32-byte blockhash.
#[derive(Debug, Clone)]
pub struct SolanaHash(pub [u8; 32]);

impl View for SolanaHash {
    type V = Seq<u8>;

    open spec fn view(&self) -> Seq<u8> {
        self.0@
    }
}

/// What a compiled instruction holds.
pub struct CompiledInstructionView {
    pub program_id_index: u8,
    pub accounts: Seq<u8>,
    pub data: Seq<u8>,
}

/// An instruction that names its program and its accounts by their place
/// in the key table of the message.
#[derive(Debug, Clone)]
pub struct CompiledInstruction {
    pub program_id_index: u8,
    pub accounts: Vec<u8>,
    pub data: Vec<u8>,
}

impl View for CompiledInstruction {
    type V = CompiledInstructionView;

    open spec fn view(&self) -> CompiledInstructionView {
        CompiledInstructionView {
            program_id_index: self.program_id_index,
            accounts: self.accounts@,
            data: self.data@,
        }
    }
}

/// What a message holds.
pub struct MessageView {
    pub header: MessageHeader,
    pub account_keys: Seq<Seq<u8>>,
    pub recent_blockhash: Seq<u8>,
    pub instructions: Seq<CompiledInstructionView>,
}

/// The part of a transaction that is signed.
#[derive(Debug, Clone)]
pub struct SolanaMessage {
    pub header: MessageHeader,
    pub account_keys: Vec<SolanaPubkey>,
    pub recent_blockhash: SolanaHash,
    pub instructions: Vec<CompiledInstruction>,
}

impl View for SolanaMessage {
    type V = MessageView;

    open spec fn view(&self) -> MessageView {
        MessageView {
            header: self.header,
            account_keys: Seq::new(self.account_keys@.len(), |i: int| self.account_keys@[i]@),
            recent_blockhash: self.recent_blockhash@,
            instructions: Seq::new(self.instructions@.len(), |i: int| self.instructions@[i]@),
        }
    }
}

/// What a transaction holds.
pub struct TransactionView {
    pub signatures: Seq<Seq<u8>>,
    pub message: MessageView,
}

/// A transaction in its wire form.
#[derive(Debug, Clone)]
pub struct SolanaTransaction {
    pub signatures: Vec<SolanaSignature>,
    pub message: SolanaMessage,
}

impl View for SolanaTransaction {
    type V = TransactionView;

    open spec fn view(&self) -> TransactionView {
        TransactionView {
            signatures: Seq::new(self.signatures@.len(), |i: int| self.signatures@[i]@),
            message: self.message@,
        }
    }
}

impl SolanaPubkey {
    pub fn new(bytes: [u8; 32]) -> (key: Self)
        ensures
            key.0 == bytes,
    {
        SolanaPubkey(bytes)
    }

    /// The address that a clock reading of `nanos` nanoseconds gives: the
    /// SHA-256 digest of the reading in little-endian order.
    pub fn from_nanos(nanos: u128) -> (key: Self)
        ensures
            key@ == crate::crypto::sha256(vstd::bytes::spec_u128_to_le_bytes(nanos)),
    {
        let reading = vstd::bytes::u128_to_le_bytes(nanos);
        SolanaPubkey(crate::crypto::SolanaCrypto::sha256_hash(reading.as_slice()))
    }

    /// An address made from the current time.
    pub fn new_unique() -> (key: Self)
        ensures
            exists|nanos: u128|
                key@ == crate::crypto::sha256(
                    #[trigger] vstd::bytes::spec_u128_to_le_bytes(nanos),
                ),
    {
        let (secs, subsec) = crate::utils::time_since_epoch();
        let nanos: u128 = secs as u128 * 1_000_000_000 + subsec as u128;
        Self::from_nanos(nanos)
    }

    /// The system program: thirty-two zero bytes.
    pub fn system_program() -> (key: Self)
        ensures
            key@ == zero_bytes(32),
    {
        let key = SolanaPubkey([0u8; 32]);
        assert(key@ =~= zero_bytes(32));
        key
    }

    /// The token program.
    pub fn token_program() -> (key: Self)
        ensures
            key.0 == crate::types::TOKEN_PROGRAM_ID,
    {
        SolanaPubkey(crate::types::TOKEN_PROGRAM_ID)
    }

    /// The address that `bytes` holds: there must be 32 of them.
    pub fn from_bytes(bytes: &[u8]) -> (result: Result<Self, TerminatorError>)
        ensures
            bytes@.len() == 32 ==> (result matches Ok(key) && key@ == bytes@),
            bytes@.len() != 32 ==> fails_with(
                result,
                ErrorView::SerializationError("Invalid pubkey length"@),
            ),
    {
        if bytes.len() != 32 {
            return Err(
                TerminatorError::SerializationError(String::from_str("Invalid pubkey length")),
            );
        }
        Ok(SolanaPubkey(to_array32(bytes)))
    }

    /// The address that a base-58 string stands for. Text that is not base
    /// 58, and text that stands for more or fewer than 32 bytes, is refused
    /// with a `SerializationError`.
    pub fn from_str(s: &str) -> (result: Result<Self, TerminatorError>)
        ensures
            match base58_bytes(s@) {
                None => fails_with(result, ErrorView::SerializationError("Invalid base58"@)),
                Some(bytes) => if bytes.len() == 32 {
                    result matches Ok(key) && key@ == bytes
                } else {
                    fails_with(result, ErrorView::SerializationError("Invalid pubkey length"@))
                },
            },
    {
        match base58_decode(s) {
            Ok(bytes) => Self::from_bytes(bytes.as_slice()),
            Err(_) => Err(TerminatorError::SerializationError(String::from_str("Invalid base58"))),
        }
    }

    /// The address as a base-58 string.
    pub fn to_string(&self) -> (text: String)
        ensures
            text@ == base58_text(self@),
    {
        base58_encode(self.0.as_slice())
    }
}

/// The payload of a transfer: the tag 2, then the amount in little-endian
/// order.
pub open spec fn transfer_payload(lamports: u64) -> Seq<u8> {
    seq![2u8] + spec_u64_to_le_bytes(lamports)
}

/// The transaction that moves `lamports` from `from` to `to`: one
/// instruction of the system program, which stands third in the key table,
/// one required signature, and an empty slot for it.
pub open spec fn transfer_transaction(
    from: Seq<u8>,
    to: Seq<u8>,
    lamports: u64,
    recent_blockhash: Seq<u8>,
) -> TransactionView {
    TransactionView {
        signatures: seq![zero_bytes(64)],
        message: MessageView {
            header: MessageHeader {
                num_required_signatures: 1,
                num_readonly_signed_accounts: 0,
                num_readonly_unsigned_accounts: 1,
            },
            account_keys: seq![from, to, zero_bytes(32)],
            recent_blockhash,
            instructions: seq![
                CompiledInstructionView {
                    program_id_index: 2,
                    accounts: seq![0u8, 1u8],
                    data: transfer_payload(lamports),
                },
            ],
        },
    }
}

/// The first instruction among the first `count` that names a place
/// outside a key table of `keys` entries, if there is one, with what is
/// wrong with it.
pub open spec fn first_bad_index(
    instructions: Seq<CompiledInstructionView>,
    keys: nat,
    count: nat,
) -> Option<Seq<char>>
    decreases count,
{
    if count == 0 {
        None
    } else {
        match first_bad_index(instructions, keys, (count - 1) as nat) {
            Some(reason) => Some(reason),
            None => {
                let instruction = instructions[count - 1];
                if instruction.program_id_index >= keys {
                    Some("Invalid program_id_index"@)
                } else if exists|i: int|
                    0 <= i < instruction.accounts.len() && instruction.accounts[i] >= keys {
                    Some("Invalid account index"@)
                } else {
                    None
                }
            },
        }
    }
}

/// What is wrong with the format of a transaction, if anything: first the
/// number of signatures, then the instructions in order.
pub open spec fn format_fault(transaction: TransactionView) -> Option<Seq<char>> {
    if transaction.signatures.len() != transaction.message.header.num_required_signatures {
        Some("Signature count mismatch"@)
    } else {
        first_bad_index(
            transaction.message.instructions,
            transaction.message.account_keys.len(),
            transaction.message.instructions.len(),
        )
    }
}

/// Every place that the instructions name lies in the key table.
pub open spec fn indices_in_bounds(transaction: TransactionView) -> bool {
    forall|i: int|
        0 <= i < transaction.message.instructions.len() ==> {
            &&& (#[trigger] transaction.message.instructions[i]).program_id_index
                < transaction.message.account_keys.len()
            &&& forall|j: int|
                0 <= j < transaction.message.instructions[i].accounts.len()
                    ==> transaction.message.instructions[i].accounts[j]
                    < transaction.message.account_keys.len()
        }
}

/// Among the first `count` instructions there is no fault exactly when
/// each of them stays within the key table.
proof fn lemma_no_bad_index(
    instructions: Seq<CompiledInstructionView>,
    keys: nat,
    count: nat,
)
    ensures
        first_bad_index(instructions, keys, count) is None <==> forall|i: int|
            0 <= i < count ==> {
                &&& (#[trigger] instructions[i]).program_id_index < keys
                &&& forall|j: int|
                    0 <= j < instructions[i].accounts.len() ==> instructions[i].accounts[j]
                        < keys
            },
    decreases count,
{
    if count > 0 {
        lemma_no_bad_index(instructions, keys, (count - 1) as nat);
    }
}

/// A transaction has no format fault exactly when it has as many
/// signatures as its header requires and every place that its instructions
/// name lies in the key table.
pub proof fn lemma_format_without_fault(transaction: TransactionView)
    ensures
        format_fault(transaction) is None <==> transaction.signatures.len()
            == transaction.message.header.num_required_signatures && indices_in_bounds(
            transaction,
        ),
{
    lemma_no_bad_index(
        transaction.message.instructions,
        transaction.message.account_keys.len(),
        transaction.message.instructions.len(),
    );
}

/// `result` is what reading `data` gives: the transaction whose wire form
/// stands at the start of `data`, or a `SerializationError` where no
/// transaction's wire form stands there.
pub open spec fn is_reading_of(
    data: Seq<u8>,
    result: Result<SolanaTransaction, TerminatorError>,
) -> bool {
    match result {
        Ok(transaction) => wire::holds_at(data, 0, wire::transaction_bytes(transaction@)),
        Err(e) => {
            &&& e@ == ErrorView::SerializationError(
                "Failed to parse transaction: truncated or malformed input"@,
            )
            &&& forall|any: TransactionView|
                wire::valid_transaction(any) ==> !wire::holds_at(
                    data,
                    0,
                    #[trigger] wire::transaction_bytes(any),
                )
        },
    }
}

/// Reading undoes writing: whatever reading gives for the wire form of a
/// transaction, with or without bytes behind it, is that transaction.
pub proof fn lemma_parse_undoes_serialize(
    transaction: SolanaTransaction,
    rest: Seq<u8>,
    result: Result<SolanaTransaction, TerminatorError>,
)
    requires
        is_reading_of(wire::transaction_bytes(transaction@) + rest, result),
    ensures
        result matches Ok(back) && back@ == transaction@,
{
    let written = wire::transaction_bytes(transaction@);
    let data = written + rest;
    wire::lemma_in_memory_is_valid(transaction);
    assert(data.subrange(0, written.len() as int) =~= written);
    match result {
        Ok(back) => {
            wire::lemma_in_memory_is_valid(back);
            wire::lemma_wire_form_is_unique(data, back@, transaction@);
        },
        Err(_) => {},
    }
}

/// Reading and writing of transactions.
pub struct SolanaTransactionParser;

impl SolanaTransactionParser {
    /// A transfer of `lamports` from `from` to `to`, with an empty
    /// signature slot: signing is left to the caller.
    pub fn create_transfer_transaction(
        from: SolanaPubkey,
        to: SolanaPubkey,
        lamports: u64,
        recent_blockhash: SolanaHash,
    ) -> (transaction: SolanaTransaction)
        ensures
            transaction@ == transfer_transaction(from@, to@, lamports, recent_blockhash@),
    {
        let mut instruction_data: Vec<u8> = Vec::new();
        instruction_data.push(2);
        let amount = u64_to_le_bytes(lamports);
        append_bytes(&mut instruction_data, amount.as_slice());
        assert(instruction_data@ =~= transfer_payload(lamports));
        let mut accounts: Vec<u8> = Vec::new();
        accounts.push(0);
        accounts.push(1);
        assert(accounts@ =~= seq![0u8, 1u8]);
        let instruction = CompiledInstruction {
            program_id_index: 2,
            accounts,
            data: instruction_data,
        };
        let mut account_keys: Vec<SolanaPubkey> = Vec::new();
        account_keys.push(from);
        account_keys.push(to);
        account_keys.push(SolanaPubkey::system_program());
        let mut instructions: Vec<CompiledInstruction> = Vec::new();
        instructions.push(instruction);
        let message = SolanaMessage {
            header: MessageHeader {
                num_required_signatures: 1,
                num_readonly_signed_accounts: 0,
                num_readonly_unsigned_accounts: 1,
            },
            account_keys,
            recent_blockhash,
            instructions,
        };
        let mut signatures: Vec<SolanaSignature> = Vec::new();
        let slot = SolanaSignature([0u8; 64]);
        assert(slot@ =~= zero_bytes(64));
        signatures.push(slot);
        let transaction = SolanaTransaction { signatures, message };
        proof {
            let expected = transfer_transaction(from@, to@, lamports, recent_blockhash@);
            assert(transaction@.signatures =~= expected.signatures);
            assert(transaction@.message.account_keys =~= expected.message.account_keys);
            assert(transaction@.message.instructions =~= expected.message.instructions);
        }
        transaction
    }

    /// Checks the format of a transaction: it must have as many signatures
    /// as its header requires, and each instruction must name its program
    /// and its accounts by places that lie in the key table. The first
    /// fault found is reported as `TransactionExecutionFailed`.
    pub fn validate_transaction_format(tx: &SolanaTransaction) -> (result: Result<
        (),
        TerminatorError,
    >)
        ensures
            match format_fault(tx@) {
                None => result is Ok,
                Some(reason) => fails_with(
                    result,
                    ErrorView::TransactionExecutionFailed(reason),
                ),
            },
    {
        if tx.signatures.len() != tx.message.header.num_required_signatures as usize {
            return Err(
                TerminatorError::TransactionExecutionFailed(
                    String::from_str("Signature count mismatch"),
                ),
            );
        }
        let keys = tx.message.account_keys.len();
        let count = tx.message.instructions.len();
        let ghost listed = tx@.message.instructions;
        let mut i: usize = 0;
        while i < count
            invariant
                i <= count,
                count == tx.message.instructions@.len(),
                keys == tx.message.account_keys@.len(),
                listed == tx@.message.instructions,
                tx@.signatures.len() == tx@.message.header.num_required_signatures,
                first_bad_index(listed, keys as nat, i as nat) is None,
            decreases count - i,
        {
            let instruction = &tx.message.instructions[i];
            assert(listed[i as int] == instruction@);
            if instruction.program_id_index as usize >= keys {
                proof {
                    assert(first_bad_index(listed, keys as nat, (i + 1) as nat) == Some(
                        "Invalid program_id_index"@,
                    ));
                    lemma_fault_stays(listed, keys as nat, (i + 1) as nat, count as nat);
                }
                return Err(
                    TerminatorError::TransactionExecutionFailed(
                        String::from_str("Invalid program_id_index"),
                    ),
                );
            }
            let mut j: usize = 0;
            while j < instruction.accounts.len()
                invariant
                    j <= instruction.accounts@.len(),
                    i < count,
                    count == tx.message.instructions@.len(),
                    keys == tx.message.account_keys@.len(),
                    listed == tx@.message.instructions,
                    listed[i as int] == instruction@,
                    tx@.signatures.len() == tx@.message.header.num_required_signatures,
                    first_bad_index(listed, keys as nat, i as nat) is None,
                    instruction.program_id_index < keys,
                    forall|k: int| 0 <= k < j ==> instruction.accounts@[k] < keys,
                decreases instruction.accounts@.len() - j,
            {
                if instruction.accounts[j] as usize >= keys {
                    proof {
                        let named = listed[i as int].accounts;
                        assert(0 <= j < named.len() && named[j as int] >= keys);
                        assert(first_bad_index(listed, keys as nat, (i + 1) as nat) == Some(
                            "Invalid account index"@,
                        ));
                        lemma_fault_stays(listed, keys as nat, (i + 1) as nat, count as nat);
                    }
                    return Err(
                        TerminatorError::TransactionExecutionFailed(
                            String::from_str("Invalid account index"),
                        ),
                    );
                }
                j += 1;
            }
            assert(first_bad_index(listed, keys as nat, (i + 1) as nat) is None);
            i += 1;
        }
        Ok(())
    }

    /// Reads a transaction from the start of `data`. Bytes that follow it
    /// are ignored. Input that does not start with the wire form of a
    /// transaction is refused with a `SerializationError`.
    pub fn parse_transaction(data: &[u8]) -> (result: Result<SolanaTransaction, TerminatorError>)
        ensures
            is_reading_of(data@, result),
    {
        match wire::take_transaction(data) {
            Some(transaction) => Ok(transaction),
            None => Err(
                TerminatorError::SerializationError(
                    String::from_str("Failed to parse transaction: truncated or malformed input"),
                ),
            ),
        }
    }

    /// The wire form of a transaction.
    pub fn serialize_transaction(tx: &SolanaTransaction) -> (result: Result<
        Vec<u8>,
        TerminatorError,
    >)
        ensures
            result matches Ok(bytes) && bytes@ == wire::transaction_bytes(tx@),
    {
        let mut bytes: Vec<u8> = Vec::new();
        wire::put_transaction(&mut bytes, tx);
        assert(bytes@ =~= wire::transaction_bytes(tx@));
        Ok(bytes)
    }

    /// Reads a transaction from JSON text. Text that is not JSON, and JSON
    /// that is not a transaction, is refused with a `SerializationError`.
    pub fn parse_transaction_json(json: &str) -> (result: Result<
        SolanaTransaction,
        TerminatorError,
    >)
        ensures
            match result {
                Ok(transaction) => crate::json::json_parsed(json@) matches Some(document)
                    && crate::json::json_transaction(document) == Some(transaction@),
                Err(e) => {
                    &&& e@ == ErrorView::SerializationError(
                        "Failed to parse JSON transaction: malformed input"@,
                    )
                    &&& crate::json::json_parsed(json@) matches Some(document)
                        ==> crate::json::json_transaction(document) is None
                },
            },
    {
        match crate::json::transaction_of_text(json) {
            Some(transaction) => Ok(transaction),
            None => Err(
                TerminatorError::SerializationError(
                    String::from_str("Failed to parse JSON transaction: malformed input"),
                ),
            ),
        }
    }

    /// The indented JSON text of a transaction: what `serde_json` writes for
    /// its document, or a `SerializationError` where it writes nothing.
    pub fn transaction_to_json(tx: &SolanaTransaction) -> (result: Result<String, TerminatorError>)
        ensures
            match crate::json::json_pretty(crate::json::transaction_json(tx@)) {
                Some(written) => result matches Ok(text) && text@ == written,
                None => fails_with(
                    result,
                    ErrorView::SerializationError("Failed to serialize JSON"@),
                ),
            },
    {
        match crate::json::transaction_text(tx) {
            Some(text) => Ok(text),
            None => Err(
                TerminatorError::SerializationError(String::from_str("Failed to serialize JSON")),
            ),
        }
    }

    /// The wire form of a message: the bytes that are signed.
    pub fn message_data(message: &SolanaMessage) -> (result: Result<Vec<u8>, TerminatorError>)
        ensures
            result matches Ok(bytes) && bytes@ == wire::message_bytes(message@),
    {
        let mut bytes: Vec<u8> = Vec::new();
        wire::put_message(&mut bytes, message);
        assert(bytes@ =~= wire::message_bytes(message@));
        Ok(bytes)
    }
}

/// A fault among the first instructions is the fault of the whole list.
proof fn lemma_fault_stays(
    instructions: Seq<CompiledInstructionView>,
    keys: nat,
    at: nat,
    later: nat,
)
    requires
        at <= later,
        first_bad_index(instructions, keys, at) is Some,
    ensures
        first_bad_index(instructions, keys, later) == first_bad_index(instructions, keys, at),
    decreases later,
{
    if at < later {
        lemma_fault_stays(instructions, keys, at, (later - 1) as nat);
    }
}

/// The first `count` of `seeds`, each behind one byte that holds its length
/// modulo 256.
pub open spec fn tagged_seeds(seeds: Seq<Seq<u8>>, count: nat) -> Seq<u8>
    decreases count,
{
    if count == 0 {
        Seq::empty()
    } else {
        tagged_seeds(seeds, (count - 1) as nat) + seq![(seeds[count - 1].len() % 256) as u8]
            + seeds[count - 1]
    }
}

/// The payload that asks for an account at a derived address: the tag 0,
/// the number of seeds modulo 256, and the seeds with their lengths.
pub open spec fn pda_payload(seeds: Seq<Seq<u8>>) -> Seq<u8> {
    seq![0u8, (seeds.len() % 256) as u8] + tagged_seeds(seeds, seeds.len())
}

/// The 32-byte pieces of `data`, in order; bytes that do not fill a piece
/// are left out.
pub open spec fn address_chunks(data: Seq<u8>) -> Seq<Seq<u8>> {
    Seq::new((data.len() / 32) as nat, |k: int| data.subrange(32 * k, 32 * k + 32))
}

/// Instructions beyond plain transfers.
pub struct SolanaFeatures;

impl SolanaFeatures {
    /// The instruction that asks for an account at the address derived from
    /// `seeds`. It names the payer, at place 0, as its only account.
    pub fn create_pda_instruction(
        program_id: SolanaPubkey,
        seeds: &[&[u8]],
        payer: SolanaPubkey,
    ) -> (result: Result<CompiledInstruction, TerminatorError>)
        ensures
            result matches Ok(instruction) && instruction@ == (CompiledInstructionView {
                program_id_index: 0,
                accounts: seq![0u8],
                data: pda_payload(crate::crypto::byte_strings(seeds@)),
            }),
    {
        let ghost parts = crate::crypto::byte_strings(seeds@);
        let mut data: Vec<u8> = Vec::new();
        data.push(0);
        data.push((seeds.len() % 256) as u8);
        let ghost head = data@;
        let mut i: usize = 0;
        while i < seeds.len()
            invariant
                i <= seeds@.len(),
                parts == crate::crypto::byte_strings(seeds@),
                data@ == head + tagged_seeds(parts, i as nat),
            decreases seeds@.len() - i,
        {
            let seed = seeds[i];
            data.push((seed.len() % 256) as u8);
            append_bytes(&mut data, seed);
            assert(data@ =~= head + tagged_seeds(parts, (i + 1) as nat));
            i += 1;
        }
        assert(data@ =~= pda_payload(parts));
        let mut accounts: Vec<u8> = Vec::new();
        accounts.push(0);
        assert(accounts@ =~= seq![0u8]);
        Ok(CompiledInstruction { program_id_index: 0, accounts, data })
    }

    /// The addresses that the payload of a lookup-table instruction lists:
    /// its 32-byte pieces, in order. A payload without one whole address is
    /// refused with a `SerializationError`.
    pub fn parse_lookup_table_instruction(data: &[u8]) -> (result: Result<
        Vec<SolanaPubkey>,
        TerminatorError,
    >)
        ensures
            data@.len() < 32 ==> fails_with(
                result,
                ErrorView::SerializationError("Invalid ALT data"@),
            ),
            data@.len() >= 32 ==> (result matches Ok(addresses) && Seq::new(
                addresses@.len(),
                |k: int| addresses@[k]@,
            ) == address_chunks(data@)),
    {
        if data.len() < 32 {
            return Err(TerminatorError::SerializationError(String::from_str("Invalid ALT data")));
        }
        let mut addresses: Vec<SolanaPubkey> = Vec::new();
        let mut offset: usize = 0;
        while data.len() - offset >= 32
            invariant
                offset <= data@.len(),
                offset == 32 * addresses@.len(),
                forall|k: int|
                    0 <= k < addresses@.len() ==> (#[trigger] addresses@[k])@ == data@.subrange(
                        32 * k,
                        32 * k + 32,
                    ),
            decreases data@.len() - offset,
        {
            let piece = slice_subrange(data, offset, offset + 32);
            addresses.push(SolanaPubkey(to_array32(piece)));
            offset += 32;
        }
        assert(Seq::new(addresses@.len(), |k: int| addresses@[k]@) =~= address_chunks(data@));
        Ok(addresses)
    }
}

} // verus!
