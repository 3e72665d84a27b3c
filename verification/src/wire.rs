//! The binary wire form of transactions, and the proof that reading undoes
//! writing.
//!
//! Numbers are written as eight bytes in little-endian order. A byte string
//! is written as its length and then its bytes, also where the length is
//! fixed. A list is written as the number of its items and then the items.

use crate::bytes::{append_bytes, copy_bytes, to_array32, to_array64};
use crate::solana_format::{
    CompiledInstruction, CompiledInstructionView, MessageHeader, MessageView, SolanaHash,
    SolanaMessage, SolanaPubkey, SolanaSignature, SolanaTransaction, TransactionView,
};
use vstd::bytes::{
    lemma_auto_spec_u64_to_from_le_bytes, spec_u64_from_le_bytes, spec_u64_to_le_bytes,
    u64_from_le_bytes, u64_to_le_bytes,
};
use vstd::prelude::*;
use vstd::slice::slice_subrange;

verus! {

/// `part` stands in `bytes` from place `at` on.
pub open spec fn holds_at(bytes: Seq<u8>, at: int, part: Seq<u8>) -> bool {
    &&& 0 <= at
    &&& at + part.len() <= bytes.len()
    &&& bytes.subrange(at, at + part.len()) == part
}

/// A byte string behind its length.
pub open spec fn counted(bytes: Seq<u8>) -> Seq<u8> {
    spec_u64_to_le_bytes(bytes.len() as u64) + bytes
}

/// The first `count` of `items`, each behind its length.
pub open spec fn counted_all(items: Seq<Seq<u8>>, count: nat) -> Seq<u8>
    decreases count,
{
    if count == 0 {
        Seq::empty()
    } else {
        counted_all(items, (count - 1) as nat) + counted(items[count - 1])
    }
}

/// One instruction: the place of its program, then its account places and
/// its payload as byte strings.
pub open spec fn instruction_bytes(instruction: CompiledInstructionView) -> Seq<u8> {
    seq![instruction.program_id_index] + counted(instruction.accounts) + counted(
        instruction.data,
    )
}

/// The first `count` of `items`, one after the other.
pub open spec fn instructions_bytes(items: Seq<CompiledInstructionView>, count: nat) -> Seq<u8>
    decreases count,
{
    if count == 0 {
        Seq::empty()
    } else {
        instructions_bytes(items, (count - 1) as nat) + instruction_bytes(items[count - 1])
    }
}

/// The three counts of a header, one byte each.
pub open spec fn header_bytes(header: MessageHeader) -> Seq<u8> {
    seq![
        header.num_required_signatures,
        header.num_readonly_signed_accounts,
        header.num_readonly_unsigned_accounts,
    ]
}

/// A message: header, key table, blockhash, instructions.
pub open spec fn message_bytes(message: MessageView) -> Seq<u8> {
    header_bytes(message.header) + spec_u64_to_le_bytes(message.account_keys.len() as u64)
        + counted_all(message.account_keys, message.account_keys.len()) + counted(
        message.recent_blockhash,
    ) + spec_u64_to_le_bytes(message.instructions.len() as u64) + instructions_bytes(
        message.instructions,
        message.instructions.len(),
    )
}

/// A transaction: its signatures, then its message.
pub open spec fn transaction_bytes(transaction: TransactionView) -> Seq<u8> {
    spec_u64_to_le_bytes(transaction.signatures.len() as u64) + counted_all(
        transaction.signatures,
        transaction.signatures.len(),
    ) + message_bytes(transaction.message)
}

/// Each of `items` has `size` bytes.
pub open spec fn all_sized(items: Seq<Seq<u8>>, size: nat) -> bool {
    forall|i: int| 0 <= i < items.len() ==> (#[trigger] items[i]).len() == size
}

/// The lengths of an instruction can be written.
pub open spec fn valid_instruction(instruction: CompiledInstructionView) -> bool {
    &&& instruction.accounts.len() <= u64::MAX
    &&& instruction.data.len() <= u64::MAX
}

/// A message that can be written: keys and blockhash have 32 bytes, and
/// every length fits the eight bytes it is written in.
pub open spec fn valid_message(message: MessageView) -> bool {
    &&& message.account_keys.len() <= u64::MAX
    &&& all_sized(message.account_keys, 32)
    &&& message.recent_blockhash.len() == 32
    &&& message.instructions.len() <= u64::MAX
    &&& forall|i: int|
        0 <= i < message.instructions.len() ==> valid_instruction(
            #[trigger] message.instructions[i],
        )
}

/// A transaction that can be written: signatures have 64 bytes, their
/// number fits, and the message can be written.
pub open spec fn valid_transaction(transaction: TransactionView) -> bool {
    &&& transaction.signatures.len() <= u64::MAX
    &&& all_sized(transaction.signatures, 64)
    &&& valid_message(transaction.message)
}

/// The number at place `at`, and the place behind it.
pub open spec fn read_u64(bytes: Seq<u8>, at: int) -> Option<(u64, int)> {
    if 0 <= at && at + 8 <= bytes.len() {
        Some((spec_u64_from_le_bytes(bytes.subrange(at, at + 8)), at + 8))
    } else {
        None
    }
}

/// The byte string at place `at`, and the place behind it.
pub open spec fn read_counted(bytes: Seq<u8>, at: int) -> Option<(Seq<u8>, int)> {
    match read_u64(bytes, at) {
        Some((length, start)) => if start + length <= bytes.len() {
            Some((bytes.subrange(start, start + length), start + length))
        } else {
            None
        },
        None => None,
    }
}

/// The byte string of `size` bytes at place `at`, and the place behind it.
pub open spec fn read_sized(bytes: Seq<u8>, at: int, size: nat) -> Option<(Seq<u8>, int)> {
    match read_counted(bytes, at) {
        Some((found, next)) => if found.len() == size {
            Some((found, next))
        } else {
            None
        },
        None => None,
    }
}

/// `count` byte strings of `size` bytes from place `at` on, and the place
/// behind them.
pub open spec fn read_sized_list(bytes: Seq<u8>, at: int, size: nat, count: nat) -> Option<
    (Seq<Seq<u8>>, int),
>
    decreases count,
{
    if count == 0 {
        Some((Seq::empty(), at))
    } else {
        match read_sized_list(bytes, at, size, (count - 1) as nat) {
            Some((items, next)) => match read_sized(bytes, next, size) {
                Some((item, after)) => Some((items.push(item), after)),
                None => None,
            },
            None => None,
        }
    }
}

/// The instruction at place `at`, and the place behind it.
pub open spec fn read_instruction(bytes: Seq<u8>, at: int) -> Option<
    (CompiledInstructionView, int),
> {
    if 0 <= at < bytes.len() {
        match read_counted(bytes, at + 1) {
            Some((accounts, next)) => match read_counted(bytes, next) {
                Some((data, after)) => Some(
                    (
                        CompiledInstructionView {
                            program_id_index: bytes[at],
                            accounts,
                            data,
                        },
                        after,
                    ),
                ),
                None => None,
            },
            None => None,
        }
    } else {
        None
    }
}

/// `count` instructions from place `at` on, and the place behind them.
pub open spec fn read_instructions(bytes: Seq<u8>, at: int, count: nat) -> Option<
    (Seq<CompiledInstructionView>, int),
>
    decreases count,
{
    if count == 0 {
        Some((Seq::empty(), at))
    } else {
        match read_instructions(bytes, at, (count - 1) as nat) {
            Some((items, next)) => match read_instruction(bytes, next) {
                Some((item, after)) => Some((items.push(item), after)),
                None => None,
            },
            None => None,
        }
    }
}

/// The message at place `at`, and the place behind it.
pub open spec fn read_message(bytes: Seq<u8>, at: int) -> Option<(MessageView, int)> {
    if 0 <= at && at + 3 <= bytes.len() {
        let header = MessageHeader {
            num_required_signatures: bytes[at],
            num_readonly_signed_accounts: bytes[at + 1],
            num_readonly_unsigned_accounts: bytes[at + 2],
        };
        match read_u64(bytes, at + 3) {
            Some((key_count, keys_at)) => match read_sized_list(
                bytes,
                keys_at,
                32,
                key_count as nat,
            ) {
                Some((account_keys, hash_at)) => match read_sized(bytes, hash_at, 32) {
                    Some((recent_blockhash, count_at)) => match read_u64(bytes, count_at) {
                        Some((instruction_count, list_at)) => match read_instructions(
                            bytes,
                            list_at,
                            instruction_count as nat,
                        ) {
                            Some((instructions, after)) => Some(
                                (
                                    MessageView {
                                        header,
                                        account_keys,
                                        recent_blockhash,
                                        instructions,
                                    },
                                    after,
                                ),
                            ),
                            None => None,
                        },
                        None => None,
                    },
                    None => None,
                },
                None => None,
            },
            None => None,
        }
    } else {
        None
    }
}

/// The transaction at the start of `bytes`, and the place behind it.
pub open spec fn read_transaction(bytes: Seq<u8>) -> Option<(TransactionView, int)> {
    match read_u64(bytes, 0) {
        Some((count, list_at)) => match read_sized_list(bytes, list_at, 64, count as nat) {
            Some((signatures, message_at)) => match read_message(bytes, message_at) {
                Some((message, after)) => Some((TransactionView { signatures, message }, after)),
                None => None,
            },
            None => None,
        },
        None => None,
    }
}

/// Two parts stand one behind the other exactly where their concatenation
/// stands.
proof fn lemma_holds_split(bytes: Seq<u8>, at: int, first: Seq<u8>, second: Seq<u8>)
    ensures
        holds_at(bytes, at, first + second) <==> holds_at(bytes, at, first) && holds_at(
            bytes,
            at + first.len(),
            second,
        ),
{
    let whole = first + second;
    let middle = at + first.len();
    if holds_at(bytes, at, whole) {
        let found = bytes.subrange(at, at + whole.len());
        assert forall|i: int| 0 <= i < first.len() implies bytes[at + i] == first[i] by {
            assert(found[i] == whole[i]);
        }
        assert forall|i: int| 0 <= i < second.len() implies bytes[middle + i] == second[i] by {
            assert(found[first.len() + i] == whole[first.len() + i]);
        }
        assert(bytes.subrange(at, middle) =~= first);
        assert(bytes.subrange(middle, middle + second.len()) =~= second);
    }
    if holds_at(bytes, at, first) && holds_at(bytes, middle, second) {
        assert forall|i: int| 0 <= i < whole.len() implies bytes[at + i] == whole[i] by {
            if i < first.len() {
                assert(bytes.subrange(at, middle)[i] == first[i]);
            } else {
                assert(bytes.subrange(middle, middle + second.len())[i - first.len()]
                    == second[i - first.len()]);
            }
        }
        assert(bytes.subrange(at, at + whole.len()) =~= whole);
    }
}

/// A number is read where its eight bytes stand, and nowhere else.
proof fn lemma_read_u64(bytes: Seq<u8>, at: int, value: u64)
    ensures
        spec_u64_to_le_bytes(value).len() == 8,
        read_u64(bytes, at) == Some((value, at + 8)) <==> holds_at(
            bytes,
            at,
            spec_u64_to_le_bytes(value),
        ),
{
    lemma_auto_spec_u64_to_from_le_bytes();
    if 0 <= at && at + 8 <= bytes.len() {
        let found = bytes.subrange(at, at + 8);
        assert(spec_u64_to_le_bytes(spec_u64_from_le_bytes(found)) == found);
    }
}

/// A byte string is read where it stands behind its length.
proof fn lemma_read_counted(bytes: Seq<u8>, at: int, value: Seq<u8>)
    requires
        value.len() <= u64::MAX,
    ensures
        counted(value).len() == 8 + value.len(),
        read_counted(bytes, at) == Some((value, at + counted(value).len())) <==> holds_at(
            bytes,
            at,
            counted(value),
        ),
{
    let length = value.len() as u64;
    lemma_read_u64(bytes, at, length);
    lemma_holds_split(bytes, at, spec_u64_to_le_bytes(length), value);
    if read_counted(bytes, at) == Some((value, at + counted(value).len())) {
        let found = read_u64(bytes, at).unwrap().0;
        assert(bytes.subrange(at + 8, at + 8 + found) == value);
        assert(found == length);
    }
}

/// What is read as a byte string is a byte string that can be written.
proof fn lemma_read_counted_fits(bytes: Seq<u8>, at: int)
    ensures
        read_counted(bytes, at) matches Some(found) ==> found.0.len() <= u64::MAX && found.1
            == at + counted(found.0).len() && holds_at(bytes, at, counted(found.0)),
{
    if read_counted(bytes, at) is Some {
        let found = read_counted(bytes, at).unwrap();
        lemma_read_counted(bytes, at, found.0);
    }
}

/// The writing of a list depends on the items written alone.
proof fn lemma_counted_all_agrees(a: Seq<Seq<u8>>, b: Seq<Seq<u8>>, count: nat)
    requires
        count <= a.len(),
        count <= b.len(),
        forall|i: int| 0 <= i < count ==> a[i] == b[i],
    ensures
        counted_all(a, count) == counted_all(b, count),
    decreases count,
{
    if count > 0 {
        lemma_counted_all_agrees(a, b, (count - 1) as nat);
    }
}

/// What is read as a list of sized byte strings stands written where it
/// was read.
proof fn lemma_sized_list_sound(bytes: Seq<u8>, at: int, size: nat, count: nat)
    requires
        size <= u64::MAX,
        0 <= at <= bytes.len(),
    ensures
        read_sized_list(bytes, at, size, count) matches Some(found) ==> {
            &&& found.0.len() == count
            &&& all_sized(found.0, size)
            &&& found.1 == at + counted_all(found.0, count).len()
            &&& holds_at(bytes, at, counted_all(found.0, count))
        },
    decreases count,
{
    if count > 0 && read_sized_list(bytes, at, size, count) is Some {
        let before = read_sized_list(bytes, at, size, (count - 1) as nat).unwrap();
        let last = read_sized(bytes, before.1, size).unwrap();
        let found = read_sized_list(bytes, at, size, count).unwrap();
        lemma_sized_list_sound(bytes, at, size, (count - 1) as nat);
        lemma_read_counted_fits(bytes, before.1);
        lemma_counted_all_agrees(before.0, found.0, (count - 1) as nat);
        lemma_holds_split(
            bytes,
            at,
            counted_all(found.0, (count - 1) as nat),
            counted(found.0[count - 1]),
        );
    } else if count == 0 {
        assert(bytes.subrange(at, at) =~= Seq::<u8>::empty());
    }
}

/// A list of sized byte strings that stands written is read as it is.
proof fn lemma_sized_list_complete(
    bytes: Seq<u8>,
    at: int,
    size: nat,
    items: Seq<Seq<u8>>,
    count: nat,
)
    requires
        size <= u64::MAX,
        count <= items.len(),
        all_sized(items, size),
        holds_at(bytes, at, counted_all(items, count)),
    ensures
        read_sized_list(bytes, at, size, count) == Some(
            (items.take(count as int), at + counted_all(items, count).len()),
        ),
    decreases count,
{
    if count > 0 {
        let before = counted_all(items, (count - 1) as nat);
        let last = items[count - 1];
        lemma_holds_split(bytes, at, before, counted(last));
        lemma_sized_list_complete(bytes, at, size, items, (count - 1) as nat);
        lemma_read_counted(bytes, at + before.len(), last);
        assert(items.take(count - 1).push(last) =~= items.take(count as int));
    } else {
        assert(items.take(0) =~= Seq::<Seq<u8>>::empty());
    }
}

/// An instruction is read where it stands written.
proof fn lemma_read_instruction(bytes: Seq<u8>, at: int, value: CompiledInstructionView)
    requires
        valid_instruction(value),
    ensures
        instruction_bytes(value).len() == 17 + value.accounts.len() + value.data.len(),
        read_instruction(bytes, at) == Some((value, at + instruction_bytes(value).len()))
            <==> holds_at(bytes, at, instruction_bytes(value)),
{
    let tag = seq![value.program_id_index];
    let accounts = counted(value.accounts);
    let data = counted(value.data);
    lemma_holds_split(bytes, at, tag + accounts, data);
    lemma_holds_split(bytes, at, tag, accounts);
    lemma_read_counted(bytes, at + 1, value.accounts);
    lemma_read_counted(bytes, at + 1 + accounts.len(), value.data);
    if holds_at(bytes, at, tag) {
        assert(bytes.subrange(at, at + 1)[0] == tag[0]);
    }
    if 0 <= at < bytes.len() && bytes[at] == value.program_id_index {
        assert(bytes.subrange(at, at + 1) =~= tag);
    }
}

/// What is read as an instruction can be written, and stands written where
/// it was read.
proof fn lemma_read_instruction_fits(bytes: Seq<u8>, at: int)
    ensures
        read_instruction(bytes, at) matches Some(found) ==> valid_instruction(found.0)
            && found.1 == at + instruction_bytes(found.0).len() && holds_at(
            bytes,
            at,
            instruction_bytes(found.0),
        ),
{
    if read_instruction(bytes, at) is Some {
        let found = read_instruction(bytes, at).unwrap();
        lemma_read_counted_fits(bytes, at + 1);
        let next = read_counted(bytes, at + 1).unwrap().1;
        lemma_read_counted_fits(bytes, next);
        lemma_read_instruction(bytes, at, found.0);
    }
}

/// The writing of a list of instructions depends on the items written
/// alone.
proof fn lemma_instructions_agree(
    a: Seq<CompiledInstructionView>,
    b: Seq<CompiledInstructionView>,
    count: nat,
)
    requires
        count <= a.len(),
        count <= b.len(),
        forall|i: int| 0 <= i < count ==> a[i] == b[i],
    ensures
        instructions_bytes(a, count) == instructions_bytes(b, count),
    decreases count,
{
    if count > 0 {
        lemma_instructions_agree(a, b, (count - 1) as nat);
    }
}

/// What is read as a list of instructions stands written where it was
/// read.
proof fn lemma_instructions_sound(bytes: Seq<u8>, at: int, count: nat)
    requires
        0 <= at <= bytes.len(),
    ensures
        read_instructions(bytes, at, count) matches Some(found) ==> {
            &&& found.0.len() == count
            &&& forall|i: int| 0 <= i < count ==> valid_instruction(#[trigger] found.0[i])
            &&& found.1 == at + instructions_bytes(found.0, count).len()
            &&& holds_at(bytes, at, instructions_bytes(found.0, count))
        },
    decreases count,
{
    if count > 0 && read_instructions(bytes, at, count) is Some {
        let before = read_instructions(bytes, at, (count - 1) as nat).unwrap();
        let found = read_instructions(bytes, at, count).unwrap();
        lemma_instructions_sound(bytes, at, (count - 1) as nat);
        lemma_read_instruction_fits(bytes, before.1);
        lemma_instructions_agree(before.0, found.0, (count - 1) as nat);
        lemma_holds_split(
            bytes,
            at,
            instructions_bytes(found.0, (count - 1) as nat),
            instruction_bytes(found.0[count - 1]),
        );
        assert forall|i: int| 0 <= i < count implies valid_instruction(
            #[trigger] found.0[i],
        ) by {
            if i < count - 1 {
                assert(found.0[i] == before.0[i]);
            }
        }
    } else if count == 0 {
        assert(bytes.subrange(at, at) =~= Seq::<u8>::empty());
    }
}

/// A list of instructions that stands written is read as it is.
proof fn lemma_instructions_complete(
    bytes: Seq<u8>,
    at: int,
    items: Seq<CompiledInstructionView>,
    count: nat,
)
    requires
        count <= items.len(),
        forall|i: int| 0 <= i < items.len() ==> valid_instruction(#[trigger] items[i]),
        holds_at(bytes, at, instructions_bytes(items, count)),
    ensures
        read_instructions(bytes, at, count) == Some(
            (items.take(count as int), at + instructions_bytes(items, count).len()),
        ),
    decreases count,
{
    if count > 0 {
        let before = instructions_bytes(items, (count - 1) as nat);
        let last = items[count - 1];
        lemma_holds_split(bytes, at, before, instruction_bytes(last));
        lemma_instructions_complete(bytes, at, items, (count - 1) as nat);
        lemma_read_instruction(bytes, at + before.len(), last);
        assert(items.take(count - 1).push(last) =~= items.take(count as int));
    } else {
        assert(items.take(0) =~= Seq::<CompiledInstructionView>::empty());
    }
}

/// What is read as a message can be written, and stands written where it
/// was read.
proof fn lemma_message_sound(bytes: Seq<u8>, at: int)
    ensures
        read_message(bytes, at) matches Some(found) ==> {
            &&& valid_message(found.0)
            &&& found.1 == at + message_bytes(found.0).len()
            &&& holds_at(bytes, at, message_bytes(found.0))
        },
{
    if read_message(bytes, at) is Some {
        let found = read_message(bytes, at).unwrap();
        let message = found.0;
        let keys = message.account_keys;
        let items = message.instructions;
        let (key_count, keys_at) = read_u64(bytes, at + 3).unwrap();
        let hash_at = read_sized_list(bytes, keys_at, 32, key_count as nat).unwrap().1;
        let count_at = read_sized(bytes, hash_at, 32).unwrap().1;
        let (item_count, list_at) = read_u64(bytes, count_at).unwrap();
        lemma_read_u64(bytes, at + 3, key_count);
        lemma_sized_list_sound(bytes, keys_at, 32, key_count as nat);
        lemma_read_counted_fits(bytes, hash_at);
        lemma_read_u64(bytes, count_at, item_count);
        lemma_instructions_sound(bytes, list_at, item_count as nat);
        let head_part = header_bytes(message.header);
        let key_count_part = spec_u64_to_le_bytes(keys.len() as u64);
        let key_list_part = counted_all(keys, keys.len());
        let hash_part = counted(message.recent_blockhash);
        let item_count_part = spec_u64_to_le_bytes(items.len() as u64);
        let item_list_part = instructions_bytes(items, items.len());
        assert(bytes.subrange(at, at + 3) =~= head_part);
        lemma_holds_split(bytes, at, head_part, key_count_part);
        lemma_holds_split(bytes, at, head_part + key_count_part, key_list_part);
        lemma_holds_split(bytes, at, head_part + key_count_part + key_list_part, hash_part);
        lemma_holds_split(
            bytes,
            at,
            head_part + key_count_part + key_list_part + hash_part,
            item_count_part,
        );
        lemma_holds_split(
            bytes,
            at,
            head_part + key_count_part + key_list_part + hash_part + item_count_part,
            item_list_part,
        );
    }
}

/// A message that stands written is read as it is.
proof fn lemma_message_complete(bytes: Seq<u8>, at: int, message: MessageView)
    requires
        valid_message(message),
        holds_at(bytes, at, message_bytes(message)),
    ensures
        read_message(bytes, at) == Some((message, at + message_bytes(message).len())),
{
    let keys = message.account_keys;
    let items = message.instructions;
    let head_part = header_bytes(message.header);
    let key_count_part = spec_u64_to_le_bytes(keys.len() as u64);
    let key_list_part = counted_all(keys, keys.len());
    let hash_part = counted(message.recent_blockhash);
    let item_count_part = spec_u64_to_le_bytes(items.len() as u64);
    let item_list_part = instructions_bytes(items, items.len());
    lemma_holds_split(
        bytes,
        at,
        head_part + key_count_part + key_list_part + hash_part + item_count_part,
        item_list_part,
    );
    lemma_holds_split(
        bytes,
        at,
        head_part + key_count_part + key_list_part + hash_part,
        item_count_part,
    );
    lemma_holds_split(bytes, at, head_part + key_count_part + key_list_part, hash_part);
    lemma_holds_split(bytes, at, head_part + key_count_part, key_list_part);
    lemma_holds_split(bytes, at, head_part, key_count_part);
    assert(bytes.subrange(at, at + 3)[0] == head_part[0]);
    assert(bytes.subrange(at, at + 3)[1] == head_part[1]);
    assert(bytes.subrange(at, at + 3)[2] == head_part[2]);
    lemma_read_u64(bytes, at + 3, keys.len() as u64);
    lemma_sized_list_complete(bytes, at + 11, 32, keys, keys.len());
    assert(keys.take(keys.len() as int) =~= keys);
    let hash_at = at + 11 + key_list_part.len();
    lemma_read_counted(bytes, hash_at, message.recent_blockhash);
    let count_at = hash_at + hash_part.len();
    lemma_read_u64(bytes, count_at, items.len() as u64);
    lemma_instructions_complete(bytes, count_at + 8, items, items.len());
    assert(items.take(items.len() as int) =~= items);
}

/// Reading gives only what can be written, and only where it stands
/// written: the bytes that were read are the wire form of what was read.
pub proof fn lemma_read_is_sound(bytes: Seq<u8>)
    ensures
        read_transaction(bytes) matches Some(found) ==> {
            &&& valid_transaction(found.0)
            &&& found.1 == transaction_bytes(found.0).len()
            &&& holds_at(bytes, 0, transaction_bytes(found.0))
        },
{
    if read_transaction(bytes) is Some {
        let found = read_transaction(bytes).unwrap();
        let signatures = found.0.signatures;
        let (count, list_at) = read_u64(bytes, 0).unwrap();
        let message_at = read_sized_list(bytes, list_at, 64, count as nat).unwrap().1;
        lemma_read_u64(bytes, 0, count);
        lemma_sized_list_sound(bytes, list_at, 64, count as nat);
        lemma_message_sound(bytes, message_at);
        let slot_count = spec_u64_to_le_bytes(signatures.len() as u64);
        let slots = counted_all(signatures, signatures.len());
        let body = message_bytes(found.0.message);
        lemma_holds_split(bytes, 0, slot_count, slots);
        lemma_holds_split(bytes, 0, slot_count + slots, body);
    }
}

/// Reading finds every transaction that stands written at the start of the
/// input, whatever follows it.
pub proof fn lemma_read_is_complete(bytes: Seq<u8>, transaction: TransactionView)
    requires
        valid_transaction(transaction),
        holds_at(bytes, 0, transaction_bytes(transaction)),
    ensures
        read_transaction(bytes) == Some(
            (transaction, transaction_bytes(transaction).len() as int),
        ),
{
    let signatures = transaction.signatures;
    let slot_count = spec_u64_to_le_bytes(signatures.len() as u64);
    let slots = counted_all(signatures, signatures.len());
    let body = message_bytes(transaction.message);
    lemma_holds_split(bytes, 0, slot_count + slots, body);
    lemma_holds_split(bytes, 0, slot_count, slots);
    lemma_read_u64(bytes, 0, signatures.len() as u64);
    lemma_sized_list_complete(bytes, 8, 64, signatures, signatures.len());
    assert(signatures.take(signatures.len() as int) =~= signatures);
    lemma_message_complete(bytes, 8 + slots.len() as int, transaction.message);
}

/// Reading undoes writing: the wire form of a transaction, with or without
/// bytes behind it, is read as that transaction.
pub proof fn lemma_round_trip(transaction: TransactionView, rest: Seq<u8>)
    requires
        valid_transaction(transaction),
    ensures
        read_transaction(transaction_bytes(transaction) + rest) == Some(
            (transaction, transaction_bytes(transaction).len() as int),
        ),
{
    let written = transaction_bytes(transaction);
    let bytes = written + rest;
    assert(bytes.subrange(0, written.len() as int) =~= written);
    lemma_read_is_complete(bytes, transaction);
}

/// No input starts with the wire forms of two different transactions.
pub proof fn lemma_wire_form_is_unique(
    bytes: Seq<u8>,
    first: TransactionView,
    second: TransactionView,
)
    requires
        valid_transaction(first),
        valid_transaction(second),
        holds_at(bytes, 0, transaction_bytes(first)),
        holds_at(bytes, 0, transaction_bytes(second)),
    ensures
        first == second,
{
    lemma_read_is_complete(bytes, first);
    lemma_read_is_complete(bytes, second);
}

/// The byte strings that `keys` hold.
pub open spec fn key_views(keys: Seq<SolanaPubkey>) -> Seq<Seq<u8>> {
    Seq::new(keys.len(), |i: int| keys[i]@)
}

/// The byte strings that `signatures` hold.
pub open spec fn signature_views(signatures: Seq<SolanaSignature>) -> Seq<Seq<u8>> {
    Seq::new(signatures.len(), |i: int| signatures[i]@)
}

/// What `instructions` hold.
pub open spec fn instruction_views(instructions: Seq<CompiledInstruction>) -> Seq<
    CompiledInstructionView,
> {
    Seq::new(instructions.len(), |i: int| instructions[i]@)
}

/// Every transaction in memory can be written.
pub proof fn lemma_in_memory_is_valid(transaction: SolanaTransaction)
    ensures
        valid_transaction(transaction@),
{
    let view = transaction@;
    assert forall|i: int| 0 <= i < view.signatures.len() implies (
    #[trigger] view.signatures[i]).len() == 64 by {
        assert(view.signatures[i] == transaction.signatures@[i]@);
    }
    assert forall|i: int| 0 <= i < view.message.account_keys.len() implies (
    #[trigger] view.message.account_keys[i]).len() == 32 by {
        assert(view.message.account_keys[i] == transaction.message.account_keys@[i]@);
    }
    assert forall|i: int| 0 <= i < view.message.instructions.len() implies valid_instruction(
        #[trigger] view.message.instructions[i],
    ) by {
        let instruction = transaction.message.instructions@[i];
        assert(view.message.instructions[i] == instruction@);
        assert(instruction.accounts.len() == instruction.accounts@.len());
        assert(instruction.data.len() == instruction.data@.len());
    }
    assert(transaction.signatures.len() == view.signatures.len());
    assert(transaction.message.account_keys.len() == view.message.account_keys.len());
    assert(transaction.message.instructions.len() == view.message.instructions.len());
}

/// Appends a number.
pub fn put_u64(out: &mut Vec<u8>, value: u64)
    ensures
        final(out)@ == old(out)@ + spec_u64_to_le_bytes(value),
{
    let bytes = u64_to_le_bytes(value);
    append_bytes(out, bytes.as_slice());
}

/// Appends a byte string behind its length.
pub fn put_counted(out: &mut Vec<u8>, bytes: &[u8])
    ensures
        final(out)@ == old(out)@ + counted(bytes@),
{
    put_u64(out, bytes.len() as u64);
    append_bytes(out, bytes);
    assert(out@ =~= old(out)@ + counted(bytes@));
}

/// Appends one instruction.
pub fn put_instruction(out: &mut Vec<u8>, instruction: &CompiledInstruction)
    ensures
        final(out)@ == old(out)@ + instruction_bytes(instruction@),
{
    out.push(instruction.program_id_index);
    put_counted(out, instruction.accounts.as_slice());
    put_counted(out, instruction.data.as_slice());
    assert(out@ =~= old(out)@ + instruction_bytes(instruction@));
}

/// Appends a message.
pub fn put_message(out: &mut Vec<u8>, message: &SolanaMessage)
    ensures
        final(out)@ == old(out)@ + message_bytes(message@),
{
    let ghost view = message@;
    out.push(message.header.num_required_signatures);
    out.push(message.header.num_readonly_signed_accounts);
    out.push(message.header.num_readonly_unsigned_accounts);
    put_u64(out, message.account_keys.len() as u64);
    let ghost head = out@;
    let mut i: usize = 0;
    while i < message.account_keys.len()
        invariant
            i <= message.account_keys@.len(),
            view == message@,
            out@ == head + counted_all(view.account_keys, i as nat),
        decreases message.account_keys@.len() - i,
    {
        put_counted(out, message.account_keys[i].0.as_slice());
        assert(view.account_keys[i as int] == message.account_keys@[i as int]@);
        assert(out@ =~= head + counted_all(view.account_keys, (i + 1) as nat));
        i += 1;
    }
    put_counted(out, message.recent_blockhash.0.as_slice());
    put_u64(out, message.instructions.len() as u64);
    let ghost middle = out@;
    let mut j: usize = 0;
    while j < message.instructions.len()
        invariant
            j <= message.instructions@.len(),
            view == message@,
            out@ == middle + instructions_bytes(view.instructions, j as nat),
        decreases message.instructions@.len() - j,
    {
        put_instruction(out, &message.instructions[j]);
        assert(view.instructions[j as int] == message.instructions@[j as int]@);
        assert(out@ =~= middle + instructions_bytes(view.instructions, (j + 1) as nat));
        j += 1;
    }
    assert(out@ =~= old(out)@ + message_bytes(view));
}

/// Appends a transaction.
pub fn put_transaction(out: &mut Vec<u8>, transaction: &SolanaTransaction)
    ensures
        final(out)@ == old(out)@ + transaction_bytes(transaction@),
{
    let ghost view = transaction@;
    put_u64(out, transaction.signatures.len() as u64);
    let ghost head = out@;
    let mut i: usize = 0;
    while i < transaction.signatures.len()
        invariant
            i <= transaction.signatures@.len(),
            view == transaction@,
            out@ == head + counted_all(view.signatures, i as nat),
        decreases transaction.signatures@.len() - i,
    {
        put_counted(out, transaction.signatures[i].0.as_slice());
        assert(view.signatures[i as int] == transaction.signatures@[i as int]@);
        assert(out@ =~= head + counted_all(view.signatures, (i + 1) as nat));
        i += 1;
    }
    put_message(out, &transaction.message);
    assert(out@ =~= old(out)@ + transaction_bytes(view));
}

/// The number at place `at`.
fn take_u64(data: &[u8], at: usize) -> (found: Option<(u64, usize)>)
    requires
        at <= data@.len(),
    ensures
        match found {
            Some((value, next)) => read_u64(data@, at as int) == Some((value, next as int)),
            None => read_u64(data@, at as int) is None,
        },
{
    if data.len() - at < 8 {
        return None;
    }
    let value = u64_from_le_bytes(slice_subrange(data, at, at + 8));
    Some((value, at + 8))
}

/// The byte string at place `at`.
fn take_counted<'a>(data: &'a [u8], at: usize) -> (found: Option<(&'a [u8], usize)>)
    requires
        at <= data@.len(),
    ensures
        match found {
            Some((bytes, next)) => read_counted(data@, at as int) == Some((bytes@, next as int)),
            None => read_counted(data@, at as int) is None,
        },
{
    match take_u64(data, at) {
        Some((length, start)) => {
            if length > (data.len() - start) as u64 {
                return None;
            }
            let end = start + length as usize;
            Some((slice_subrange(data, start, end), end))
        },
        None => None,
    }
}

/// The 32 bytes at place `at`.
fn take_sized32(data: &[u8], at: usize) -> (found: Option<([u8; 32], usize)>)
    requires
        at <= data@.len(),
    ensures
        match found {
            Some((bytes, next)) => read_sized(data@, at as int, 32) == Some(
                (bytes@, next as int),
            ),
            None => read_sized(data@, at as int, 32) is None,
        },
{
    match take_counted(data, at) {
        Some((bytes, next)) => {
            if bytes.len() != 32 {
                return None;
            }
            Some((to_array32(bytes), next))
        },
        None => None,
    }
}

/// The 64 bytes at place `at`.
fn take_sized64(data: &[u8], at: usize) -> (found: Option<([u8; 64], usize)>)
    requires
        at <= data@.len(),
    ensures
        match found {
            Some((bytes, next)) => read_sized(data@, at as int, 64) == Some(
                (bytes@, next as int),
            ),
            None => read_sized(data@, at as int, 64) is None,
        },
{
    match take_counted(data, at) {
        Some((bytes, next)) => {
            if bytes.len() != 64 {
                return None;
            }
            Some((to_array64(bytes), next))
        },
        None => None,
    }
}

/// What is read behind a place lies behind that place.
proof fn lemma_reads_advance(bytes: Seq<u8>, at: int)
    ensures
        read_u64(bytes, at) matches Some(found) ==> at <= found.1 <= bytes.len(),
        read_counted(bytes, at) matches Some(found) ==> at <= found.1 <= bytes.len(),
        read_instruction(bytes, at) matches Some(found) ==> at <= found.1 <= bytes.len(),
{
}

/// `count` keys from place `at` on.
fn take_keys(data: &[u8], at: usize, count: u64) -> (found: Option<(Vec<SolanaPubkey>, usize)>)
    requires
        at <= data@.len(),
    ensures
        match found {
            Some((keys, next)) => read_sized_list(data@, at as int, 32, count as nat) == Some(
                (key_views(keys@), next as int),
            ) && next <= data@.len(),
            None => read_sized_list(data@, at as int, 32, count as nat) is None,
        },
{
    let mut keys: Vec<SolanaPubkey> = Vec::new();
    let mut place = at;
    let mut i: u64 = 0;
    assert(key_views(keys@) =~= Seq::<Seq<u8>>::empty());
    while i < count
        invariant
            i <= count,
            place <= data@.len(),
            read_sized_list(data@, at as int, 32, i as nat) == Some(
                (key_views(keys@), place as int),
            ),
        decreases count - i,
    {
        proof {
            lemma_reads_advance(data@, place as int);
        }
        match take_sized32(data, place) {
            Some((bytes, next)) => {
                let ghost before = key_views(keys@);
                keys.push(SolanaPubkey(bytes));
                assert(key_views(keys@) =~= before.push(bytes@));
                place = next;
            },
            None => {
                proof {
                    lemma_sized_list_fails(data@, at as int, 32, (i + 1) as nat, count as nat);
                }
                return None;
            },
        }
        i += 1;
    }
    Some((keys, place))
}

/// `count` signatures from place `at` on.
fn take_signatures(data: &[u8], at: usize, count: u64) -> (found: Option<
    (Vec<SolanaSignature>, usize),
>)
    requires
        at <= data@.len(),
    ensures
        match found {
            Some((signatures, next)) => read_sized_list(data@, at as int, 64, count as nat)
                == Some((signature_views(signatures@), next as int)) && next <= data@.len(),
            None => read_sized_list(data@, at as int, 64, count as nat) is None,
        },
{
    let mut signatures: Vec<SolanaSignature> = Vec::new();
    let mut place = at;
    let mut i: u64 = 0;
    assert(signature_views(signatures@) =~= Seq::<Seq<u8>>::empty());
    while i < count
        invariant
            i <= count,
            place <= data@.len(),
            read_sized_list(data@, at as int, 64, i as nat) == Some(
                (signature_views(signatures@), place as int),
            ),
        decreases count - i,
    {
        proof {
            lemma_reads_advance(data@, place as int);
        }
        match take_sized64(data, place) {
            Some((bytes, next)) => {
                let ghost before = signature_views(signatures@);
                signatures.push(SolanaSignature(bytes));
                assert(signature_views(signatures@) =~= before.push(bytes@));
                place = next;
            },
            None => {
                proof {
                    lemma_sized_list_fails(data@, at as int, 64, (i + 1) as nat, count as nat);
                }
                return None;
            },
        }
        i += 1;
    }
    Some((signatures, place))
}

/// A list that cannot be read up to some item cannot be read beyond it.
proof fn lemma_sized_list_fails(bytes: Seq<u8>, at: int, size: nat, short: nat, count: nat)
    requires
        short <= count,
        read_sized_list(bytes, at, size, short) is None,
    ensures
        read_sized_list(bytes, at, size, count) is None,
    decreases count,
{
    if short < count {
        lemma_sized_list_fails(bytes, at, size, short, (count - 1) as nat);
    }
}

/// A list that cannot be read up to some item cannot be read beyond it.
proof fn lemma_instructions_fail(bytes: Seq<u8>, at: int, short: nat, count: nat)
    requires
        short <= count,
        read_instructions(bytes, at, short) is None,
    ensures
        read_instructions(bytes, at, count) is None,
    decreases count,
{
    if short < count {
        lemma_instructions_fail(bytes, at, short, (count - 1) as nat);
    }
}

/// The instruction at place `at`.
fn take_instruction(data: &[u8], at: usize) -> (found: Option<(CompiledInstruction, usize)>)
    requires
        at <= data@.len(),
    ensures
        match found {
            Some((instruction, next)) => read_instruction(data@, at as int) == Some(
                (instruction@, next as int),
            ),
            None => read_instruction(data@, at as int) is None,
        },
{
    if at >= data.len() {
        return None;
    }
    let program_id_index = data[at];
    proof {
        lemma_reads_advance(data@, at + 1);
    }
    let (accounts, next) = match take_counted(data, at + 1) {
        Some(found) => found,
        None => {
            return None;
        },
    };
    let (payload, after) = match take_counted(data, next) {
        Some(found) => found,
        None => {
            return None;
        },
    };
    Some(
        (
            CompiledInstruction {
                program_id_index,
                accounts: copy_bytes(accounts),
                data: copy_bytes(payload),
            },
            after,
        ),
    )
}

/// `count` instructions from place `at` on.
fn take_instructions(data: &[u8], at: usize, count: u64) -> (found: Option<
    (Vec<CompiledInstruction>, usize),
>)
    requires
        at <= data@.len(),
    ensures
        match found {
            Some((instructions, next)) => read_instructions(data@, at as int, count as nat)
                == Some((instruction_views(instructions@), next as int)) && next <= data@.len(),
            None => read_instructions(data@, at as int, count as nat) is None,
        },
{
    let mut instructions: Vec<CompiledInstruction> = Vec::new();
    let mut place = at;
    let mut i: u64 = 0;
    assert(instruction_views(instructions@) =~= Seq::<CompiledInstructionView>::empty());
    while i < count
        invariant
            i <= count,
            place <= data@.len(),
            read_instructions(data@, at as int, i as nat) == Some(
                (instruction_views(instructions@), place as int),
            ),
        decreases count - i,
    {
        proof {
            lemma_reads_advance(data@, place as int);
        }
        match take_instruction(data, place) {
            Some((instruction, next)) => {
                let ghost before = instruction_views(instructions@);
                let ghost added = instruction@;
                instructions.push(instruction);
                assert(instruction_views(instructions@) =~= before.push(added));
                place = next;
            },
            None => {
                proof {
                    lemma_instructions_fail(data@, at as int, (i + 1) as nat, count as nat);
                }
                return None;
            },
        }
        i += 1;
    }
    Some((instructions, place))
}

/// The message at place `at`.
fn take_message(data: &[u8], at: usize) -> (found: Option<(SolanaMessage, usize)>)
    requires
        at <= data@.len(),
    ensures
        match found {
            Some((message, next)) => read_message(data@, at as int) == Some(
                (message@, next as int),
            ),
            None => read_message(data@, at as int) is None,
        },
{
    if data.len() - at < 3 {
        return None;
    }
    let header = MessageHeader {
        num_required_signatures: data[at],
        num_readonly_signed_accounts: data[at + 1],
        num_readonly_unsigned_accounts: data[at + 2],
    };
    let (key_count, keys_at) = match take_u64(data, at + 3) {
        Some(found) => found,
        None => {
            return None;
        },
    };
    let (account_keys, hash_at) = match take_keys(data, keys_at, key_count) {
        Some(found) => found,
        None => {
            return None;
        },
    };
    proof {
        lemma_reads_advance(data@, hash_at as int);
    }
    let (recent_blockhash, count_at) = match take_sized32(data, hash_at) {
        Some(found) => found,
        None => {
            return None;
        },
    };
    let (instruction_count, list_at) = match take_u64(data, count_at) {
        Some(found) => found,
        None => {
            return None;
        },
    };
    let (instructions, after) = match take_instructions(data, list_at, instruction_count) {
        Some(found) => found,
        None => {
            return None;
        },
    };
    let message = SolanaMessage {
        header,
        account_keys,
        recent_blockhash: SolanaHash(recent_blockhash),
        instructions,
    };
    proof {
        assert(message@.account_keys =~= key_views(message.account_keys@));
        assert(message@.instructions =~= instruction_views(message.instructions@));
    }
    Some((message, after))
}

/// The transaction that stands written at the start of `data`, if one
/// does.
pub fn take_transaction(data: &[u8]) -> (found: Option<SolanaTransaction>)
    ensures
        match found {
            Some(transaction) => holds_at(data@, 0, transaction_bytes(transaction@)),
            None => forall|any: TransactionView|
                valid_transaction(any) ==> !holds_at(data@, 0, #[trigger] transaction_bytes(any)),
        },
{
    proof {
        lemma_read_is_sound(data@);
        assert forall|any: TransactionView|
            valid_transaction(any) && holds_at(
                data@,
                0,
                #[trigger] transaction_bytes(any),
            ) implies read_transaction(data@) is Some by {
            lemma_read_is_complete(data@, any);
        }
    }
    let (count, list_at) = match take_u64(data, 0) {
        Some(found) => found,
        None => {
            return None;
        },
    };
    let (signatures, message_at) = match take_signatures(data, list_at, count) {
        Some(found) => found,
        None => {
            return None;
        },
    };
    let (message, after) = match take_message(data, message_at) {
        Some(found) => found,
        None => {
            return None;
        },
    };
    let transaction = SolanaTransaction { signatures, message };
    assert(transaction@.signatures =~= signature_views(transaction.signatures@));
    Some(transaction)
}

} // verus!
