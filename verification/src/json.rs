//! The JSON form of transactions.
//!
//! Text is read and written by `serde_json`. Its documents are reached
//! through a few small functions whose contracts are taken on trust; what a
//! transaction looks like as a document, and which documents are
//! transactions, is stated and proved here.

use crate::bytes::{to_array32, to_array64};
use crate::solana_format::{
    CompiledInstruction, CompiledInstructionView, MessageHeader, MessageView, SolanaHash,
    SolanaMessage, SolanaPubkey, SolanaSignature, SolanaTransaction, TransactionView,
};
use crate::wire::{
    all_sized, instruction_views, key_views, lemma_read_is_sound, read_transaction,
    signature_views, transaction_bytes,
};
use serde_json::Value;
use vstd::prelude::*;

verus! {

/// `serde_json::Value`, a JSON document in memory. Nothing is known of it
/// but what the functions below say.
#[verifier::external_type_specification]
#[verifier::external_body]
pub struct ExJsonValue(serde_json::Value);

/// `serde_json::Error`, which is carried through and not looked into.
#[verifier::external_type_specification]
#[verifier::external_body]
pub struct ExJsonError(serde_json::Error);

/// What a JSON document holds.
pub enum Json {
    /// A whole number from 0 to 2^64 - 1.
    Number(u64),
    /// An array.
    List(Seq<Json>),
    /// An object: its members in order, no name twice.
    Record(Seq<(Seq<char>, Json)>),
    /// Anything else (null, a truth value, a string, any other number),
    /// told apart by its JSON text.
    Scalar(Seq<char>),
}

/// What a `serde_json::Value` holds.
pub uninterp spec fn json_of(value: Value) -> Json;

/// The document that `text` is the JSON text of, if it is JSON text.
pub uninterp spec fn json_parsed(text: Seq<char>) -> Option<Json>;

/// The indented JSON text written for a document, if writing it succeeds.
pub uninterp spec fn json_pretty(document: Json) -> Option<Seq<char>>;

/// What each of `values` holds.
pub open spec fn jsons_of(values: Seq<Value>) -> Seq<Json> {
    Seq::new(values.len(), |i: int| json_of(values[i]))
}

/// The members that `entries` make.
pub open spec fn members_of(entries: Seq<(String, Value)>) -> Seq<(Seq<char>, Json)> {
    Seq::new(entries.len(), |i: int| (entries[i].0@, json_of(entries[i].1)))
}

/// No name occurs twice among `members`.
pub open spec fn distinct_names(members: Seq<(Seq<char>, Json)>) -> bool {
    forall|i: int, j: int| 0 <= i < j < members.len() ==> members[i].0 != members[j].0
}

/// The member of an object that goes by `name`.
pub open spec fn lookup(document: Json, name: Seq<char>) -> Option<Json> {
    match document {
        Json::Record(members) => if exists|i: int|
            0 <= i < members.len() && members[i].0 == name {
            let i = choose|i: int| 0 <= i < members.len() && members[i].0 == name;
            Some(members[i].1)
        } else {
            None
        },
        _ => None,
    }
}

/// Calls `serde_json::from_str` for a `Value`. Trusted: whether a document
/// comes back, and what it holds, depends on `text` alone.
#[verifier::external_body]
fn parse_value(text: &str) -> (parsed: Result<Value, serde_json::Error>)
    ensures
        match parsed {
            Ok(value) => json_parsed(text@) == Some(json_of(value)),
            Err(_) => json_parsed(text@) is None,
        },
{
    serde_json::from_str(text)
}

/// Calls `serde_json::to_string_pretty` on a `Value`. Trusted: whether text
/// comes back, and which, depends on what the value holds alone.
#[verifier::external_body]
fn pretty_text(value: &Value) -> (written: Result<String, serde_json::Error>)
    ensures
        json_pretty(json_of(*value)) == text_given(written),
{
    serde_json::to_string_pretty(value)
}

/// Calls `Value::get` with a name. Trusted: it gives the member of that
/// name where the value is an object that has one, and nothing otherwise.
#[verifier::external_body]
fn member<'a>(value: &'a Value, name: &str) -> (found: Option<&'a Value>)
    ensures
        match found {
            Some(inner) => lookup(json_of(*value), name@) == Some(json_of(*inner)),
            None => lookup(json_of(*value), name@) is None,
        },
{
    value.get(name)
}

/// Calls `Value::as_array`. Trusted: it gives the items where the value is
/// an array, and nothing otherwise.
#[verifier::external_body]
fn elements(value: &Value) -> (found: Option<&Vec<Value>>)
    ensures
        match found {
            Some(items) => json_of(*value) == Json::List(jsons_of(items@)),
            None => !(json_of(*value) is List),
        },
{
    value.as_array()
}

/// Calls `Value::as_u64`. Trusted: it gives the number where the value is
/// a whole number from 0 to 2^64 - 1, and nothing otherwise.
#[verifier::external_body]
fn unsigned(value: &Value) -> (found: Option<u64>)
    ensures
        match found {
            Some(number) => json_of(*value) == Json::Number(number),
            None => !(json_of(*value) is Number),
        },
{
    value.as_u64()
}

/// Calls `Value::from` on a `u64`. Trusted: the value holds that number.
#[verifier::external_body]
fn number_value(number: u64) -> (value: Value)
    ensures
        json_of(value) == Json::Number(number),
{
    Value::from(number)
}

/// Makes `Value::Array` of the items. Trusted: the value holds them in
/// their order.
#[verifier::external_body]
fn list_value(items: Vec<Value>) -> (value: Value)
    ensures
        json_of(value) == Json::List(jsons_of(items@)),
{
    Value::Array(items)
}

/// Makes `Value::Object` of the map that `Map::from_iter` collects from the
/// entries. Trusted: with no name twice, the object holds the entries as
/// its members, in their order.
#[verifier::external_body]
fn record_value(entries: Vec<(String, Value)>) -> (value: Value)
    requires
        distinct_names(members_of(entries@)),
    ensures
        json_of(value) == Json::Record(members_of(entries@)),
{
    Value::Object(entries.into_iter().collect())
}

/// A byte string as a document: the array of its bytes as numbers.
pub open spec fn bytes_json(bytes: Seq<u8>) -> Json {
    Json::List(Seq::new(bytes.len(), |i: int| Json::Number(bytes[i] as u64)))
}

/// A list of byte strings as a document.
pub open spec fn byte_strings_json(items: Seq<Seq<u8>>) -> Json {
    Json::List(Seq::new(items.len(), |i: int| bytes_json(items[i])))
}

/// A header as a document.
pub open spec fn header_json(header: MessageHeader) -> Json {
    Json::Record(
        seq![
            ("num_required_signatures"@, Json::Number(header.num_required_signatures as u64)),
            (
                "num_readonly_signed_accounts"@,
                Json::Number(header.num_readonly_signed_accounts as u64),
            ),
            (
                "num_readonly_unsigned_accounts"@,
                Json::Number(header.num_readonly_unsigned_accounts as u64),
            ),
        ],
    )
}

/// An instruction as a document.
pub open spec fn instruction_json(instruction: CompiledInstructionView) -> Json {
    Json::Record(
        seq![
            ("program_id_index"@, Json::Number(instruction.program_id_index as u64)),
            ("accounts"@, bytes_json(instruction.accounts)),
            ("data"@, bytes_json(instruction.data)),
        ],
    )
}

/// A list of instructions as a document.
pub open spec fn instructions_json(items: Seq<CompiledInstructionView>) -> Json {
    Json::List(Seq::new(items.len(), |i: int| instruction_json(items[i])))
}

/// A message as a document.
pub open spec fn message_json(message: MessageView) -> Json {
    Json::Record(
        seq![
            ("header"@, header_json(message.header)),
            ("account_keys"@, byte_strings_json(message.account_keys)),
            ("recent_blockhash"@, bytes_json(message.recent_blockhash)),
            ("instructions"@, instructions_json(message.instructions)),
        ],
    )
}

/// A transaction as a document.
pub open spec fn transaction_json(transaction: TransactionView) -> Json {
    Json::Record(
        seq![
            ("signatures"@, byte_strings_json(transaction.signatures)),
            ("message"@, message_json(transaction.message)),
        ],
    )
}

/// The byte that a document stands for: it must be a number up to 255.
pub open spec fn json_byte(document: Json) -> Option<u8> {
    match document {
        Json::Number(number) => if number <= 255 {
            Some(number as u8)
        } else {
            None
        },
        _ => None,
    }
}

/// The byte string that a document stands for: it must be an array of
/// bytes.
pub open spec fn json_bytes(document: Json) -> Option<Seq<u8>> {
    match document {
        Json::List(items) => if forall|i: int|
            0 <= i < items.len() ==> json_byte(#[trigger] items[i]) is Some {
            Some(Seq::new(items.len(), |i: int| json_byte(items[i]).unwrap()))
        } else {
            None
        },
        _ => None,
    }
}

/// The byte string of `size` bytes that a document stands for.
pub open spec fn json_sized(document: Json, size: nat) -> Option<Seq<u8>> {
    match json_bytes(document) {
        Some(bytes) => if bytes.len() == size {
            Some(bytes)
        } else {
            None
        },
        None => None,
    }
}

/// The byte strings of `size` bytes that a document stands for: it must be
/// an array of them.
pub open spec fn json_sized_list(document: Json, size: nat) -> Option<Seq<Seq<u8>>> {
    match document {
        Json::List(items) => if forall|i: int|
            0 <= i < items.len() ==> json_sized(#[trigger] items[i], size) is Some {
            Some(Seq::new(items.len(), |i: int| json_sized(items[i], size).unwrap()))
        } else {
            None
        },
        _ => None,
    }
}

/// The byte that the member `name` of a document stands for.
pub open spec fn json_byte_member(document: Json, name: Seq<char>) -> Option<u8> {
    match lookup(document, name) {
        Some(inner) => json_byte(inner),
        None => None,
    }
}

/// The byte string that the member `name` of a document stands for.
pub open spec fn json_bytes_member(document: Json, name: Seq<char>) -> Option<Seq<u8>> {
    match lookup(document, name) {
        Some(inner) => json_bytes(inner),
        None => None,
    }
}

/// The header that a document stands for: an object with the three counts.
/// Members of other names are ignored.
pub open spec fn json_header(document: Json) -> Option<MessageHeader> {
    match (
        json_byte_member(document, "num_required_signatures"@),
        json_byte_member(document, "num_readonly_signed_accounts"@),
        json_byte_member(document, "num_readonly_unsigned_accounts"@),
    ) {
        (Some(required), Some(signed), Some(unsigned)) => Some(
            MessageHeader {
                num_required_signatures: required,
                num_readonly_signed_accounts: signed,
                num_readonly_unsigned_accounts: unsigned,
            },
        ),
        _ => None,
    }
}

/// The instruction that a document stands for.
pub open spec fn json_instruction(document: Json) -> Option<CompiledInstructionView> {
    match (
        json_byte_member(document, "program_id_index"@),
        json_bytes_member(document, "accounts"@),
        json_bytes_member(document, "data"@),
    ) {
        (Some(program_id_index), Some(accounts), Some(data)) => Some(
            CompiledInstructionView { program_id_index, accounts, data },
        ),
        _ => None,
    }
}

/// The instructions that a document stands for: it must be an array of
/// them.
pub open spec fn json_instructions(document: Json) -> Option<Seq<CompiledInstructionView>> {
    match document {
        Json::List(items) => if forall|i: int|
            0 <= i < items.len() ==> json_instruction(#[trigger] items[i]) is Some {
            Some(Seq::new(items.len(), |i: int| json_instruction(items[i]).unwrap()))
        } else {
            None
        },
        _ => None,
    }
}

/// The message that a document stands for.
pub open spec fn json_message(document: Json) -> Option<MessageView> {
    match (
        lookup(document, "header"@),
        lookup(document, "account_keys"@),
        lookup(document, "recent_blockhash"@),
        lookup(document, "instructions"@),
    ) {
        (Some(header), Some(keys), Some(hash), Some(list)) => match (
            json_header(header),
            json_sized_list(keys, 32),
            json_sized(hash, 32),
            json_instructions(list),
        ) {
            (Some(header), Some(account_keys), Some(recent_blockhash), Some(instructions)) => {
                Some(MessageView { header, account_keys, recent_blockhash, instructions })
            },
            _ => None,
        },
        _ => None,
    }
}

/// The transaction that a document stands for, if it stands for one: an
/// object with the signatures, each an array of 64 bytes, and the message.
pub open spec fn json_transaction(document: Json) -> Option<TransactionView> {
    match (lookup(document, "signatures"@), lookup(document, "message"@)) {
        (Some(list), Some(inner)) => match (json_sized_list(list, 64), json_message(inner)) {
            (Some(signatures), Some(message)) => Some(TransactionView { signatures, message }),
            _ => None,
        },
        _ => None,
    }
}

/// In an object without a name twice, each member is found by its name.
proof fn lemma_lookup_finds(members: Seq<(Seq<char>, Json)>, place: int)
    requires
        distinct_names(members),
        0 <= place < members.len(),
    ensures
        lookup(Json::Record(members), members[place].0) == Some(members[place].1),
{
    let name = members[place].0;
    let found = choose|i: int| 0 <= i < members.len() && members[i].0 == name;
    if found < place {
        assert(members[found].0 != members[place].0);
    } else if place < found {
        assert(members[place].0 != members[found].0);
    }
}

/// The names of a header's members differ.
proof fn lemma_header_names()
    ensures
        "num_required_signatures"@ != "num_readonly_signed_accounts"@,
        "num_required_signatures"@ != "num_readonly_unsigned_accounts"@,
        "num_readonly_signed_accounts"@ != "num_readonly_unsigned_accounts"@,
{
    reveal_strlit("num_required_signatures");
    reveal_strlit("num_readonly_signed_accounts");
    reveal_strlit("num_readonly_unsigned_accounts");
    assert("num_required_signatures"@.len() == 23);
    assert("num_readonly_signed_accounts"@.len() == 28);
    assert("num_readonly_unsigned_accounts"@.len() == 30);
}

/// The names of an instruction's members differ.
proof fn lemma_instruction_names()
    ensures
        "program_id_index"@ != "accounts"@,
        "program_id_index"@ != "data"@,
        "accounts"@ != "data"@,
{
    reveal_strlit("program_id_index");
    reveal_strlit("accounts");
    reveal_strlit("data");
    assert("program_id_index"@.len() == 16);
    assert("accounts"@.len() == 8);
    assert("data"@.len() == 4);
}

/// The names of a message's members differ.
proof fn lemma_message_names()
    ensures
        "header"@ != "account_keys"@,
        "header"@ != "recent_blockhash"@,
        "header"@ != "instructions"@,
        "account_keys"@ != "recent_blockhash"@,
        "account_keys"@ != "instructions"@,
        "recent_blockhash"@ != "instructions"@,
{
    reveal_strlit("header");
    reveal_strlit("account_keys");
    reveal_strlit("recent_blockhash");
    reveal_strlit("instructions");
    assert("header"@.len() == 6);
    assert("account_keys"@.len() == 12);
    assert("recent_blockhash"@.len() == 16);
    assert("instructions"@.len() == 12);
    assert("account_keys"@[0] == 'a');
    assert("instructions"@[0] == 'i');
}

/// The names of a transaction's members differ.
proof fn lemma_transaction_names()
    ensures
        "signatures"@ != "message"@,
{
    reveal_strlit("signatures");
    reveal_strlit("message");
    assert("signatures"@.len() == 10);
    assert("message"@.len() == 7);
}

/// A byte string is read back from its document.
proof fn lemma_bytes_round_trip(bytes: Seq<u8>)
    ensures
        json_bytes(bytes_json(bytes)) == Some(bytes),
{
    let items = Seq::new(bytes.len(), |i: int| Json::Number(bytes[i] as u64));
    assert forall|i: int| 0 <= i < items.len() implies json_byte(#[trigger] items[i]) == Some(
        bytes[i],
    ) by {}
    assert(Seq::new(items.len(), |i: int| json_byte(items[i]).unwrap()) =~= bytes);
}

/// Byte strings of one size are read back from their document.
proof fn lemma_sized_list_round_trip(items: Seq<Seq<u8>>, size: nat)
    requires
        all_sized(items, size),
    ensures
        json_sized_list(byte_strings_json(items), size) == Some(items),
{
    let documents = Seq::new(items.len(), |i: int| bytes_json(items[i]));
    assert forall|i: int| 0 <= i < documents.len() implies json_sized(
        #[trigger] documents[i],
        size,
    ) == Some(items[i]) by {
        lemma_bytes_round_trip(items[i]);
        assert(items[i].len() == size);
    }
    assert(Seq::new(documents.len(), |i: int| json_sized(documents[i], size).unwrap())
        =~= items);
}

/// A header is read back from its document.
proof fn lemma_header_round_trip(header: MessageHeader)
    ensures
        json_header(header_json(header)) == Some(header),
{
    lemma_header_names();
    let members = header_json(header)->Record_0;
    lemma_lookup_finds(members, 0);
    lemma_lookup_finds(members, 1);
    lemma_lookup_finds(members, 2);
}

/// An instruction is read back from its document.
proof fn lemma_instruction_round_trip(instruction: CompiledInstructionView)
    ensures
        json_instruction(instruction_json(instruction)) == Some(instruction),
{
    lemma_instruction_names();
    let members = instruction_json(instruction)->Record_0;
    lemma_lookup_finds(members, 0);
    lemma_lookup_finds(members, 1);
    lemma_lookup_finds(members, 2);
    lemma_bytes_round_trip(instruction.accounts);
    lemma_bytes_round_trip(instruction.data);
}

/// Instructions are read back from their document.
proof fn lemma_instructions_round_trip(items: Seq<CompiledInstructionView>)
    ensures
        json_instructions(instructions_json(items)) == Some(items),
{
    let documents = Seq::new(items.len(), |i: int| instruction_json(items[i]));
    assert forall|i: int| 0 <= i < documents.len() implies json_instruction(
        #[trigger] documents[i],
    ) == Some(items[i]) by {
        lemma_instruction_round_trip(items[i]);
    }
    assert(Seq::new(documents.len(), |i: int| json_instruction(documents[i]).unwrap())
        =~= items);
}

/// Reading undoes writing: the document of a transaction whose signatures
/// have 64 bytes and whose keys and blockhash have 32 stands for that
/// transaction.
pub proof fn lemma_json_round_trip(transaction: TransactionView)
    requires
        all_sized(transaction.signatures, 64),
        all_sized(transaction.message.account_keys, 32),
        transaction.message.recent_blockhash.len() == 32,
    ensures
        json_transaction(transaction_json(transaction)) == Some(transaction),
{
    let message = transaction.message;
    lemma_transaction_names();
    lemma_message_names();
    let outer = transaction_json(transaction)->Record_0;
    lemma_lookup_finds(outer, 0);
    lemma_lookup_finds(outer, 1);
    let inner = message_json(message)->Record_0;
    lemma_lookup_finds(inner, 0);
    lemma_lookup_finds(inner, 1);
    lemma_lookup_finds(inner, 2);
    lemma_lookup_finds(inner, 3);
    lemma_sized_list_round_trip(transaction.signatures, 64);
    lemma_header_round_trip(message.header);
    lemma_sized_list_round_trip(message.account_keys, 32);
    lemma_bytes_round_trip(message.recent_blockhash);
    lemma_instructions_round_trip(message.instructions);
}

/// The two forms agree: a transaction read from its wire form, written as a
/// document and read back from it, is written in the wire form it was read
/// from.
pub proof fn lemma_forms_agree(bytes: Seq<u8>)
    requires
        read_transaction(bytes) matches Some(found) && found.1 == bytes.len(),
    ensures
        ({
            let transaction = read_transaction(bytes).unwrap().0;
            &&& json_transaction(transaction_json(transaction)) == Some(transaction)
            &&& transaction_bytes(transaction) == bytes
        }),
{
    let transaction = read_transaction(bytes).unwrap().0;
    lemma_read_is_sound(bytes);
    lemma_json_round_trip(transaction);
    assert(bytes.subrange(0, bytes.len() as int) =~= bytes);
}

/// The document of a byte string.
fn bytes_value(bytes: &[u8]) -> (value: Value)
    ensures
        json_of(value) == bytes_json(bytes@),
{
    let mut items: Vec<Value> = Vec::new();
    let mut i: usize = 0;
    while i < bytes.len()
        invariant
            i <= bytes@.len(),
            items@.len() == i,
            forall|j: int| 0 <= j < i ==> json_of(#[trigger] items@[j]) == Json::Number(
                bytes@[j] as u64,
            ),
        decreases bytes@.len() - i,
    {
        items.push(number_value(bytes[i] as u64));
        i += 1;
    }
    assert(jsons_of(items@) =~= Seq::new(bytes@.len(), |i: int| Json::Number(bytes@[i] as u64)));
    list_value(items)
}

/// The document of a list of keys.
fn keys_value(keys: &Vec<SolanaPubkey>) -> (value: Value)
    ensures
        json_of(value) == byte_strings_json(key_views(keys@)),
{
    let mut items: Vec<Value> = Vec::new();
    let mut i: usize = 0;
    while i < keys.len()
        invariant
            i <= keys@.len(),
            items@.len() == i,
            forall|j: int| 0 <= j < i ==> json_of(#[trigger] items@[j]) == bytes_json(keys@[j]@),
        decreases keys@.len() - i,
    {
        items.push(bytes_value(keys[i].0.as_slice()));
        i += 1;
    }
    assert(jsons_of(items@) =~= Seq::new(
        key_views(keys@).len(),
        |i: int| bytes_json(key_views(keys@)[i]),
    ));
    list_value(items)
}

/// The document of a list of signatures.
fn signatures_value(signatures: &Vec<SolanaSignature>) -> (value: Value)
    ensures
        json_of(value) == byte_strings_json(signature_views(signatures@)),
{
    let mut items: Vec<Value> = Vec::new();
    let mut i: usize = 0;
    while i < signatures.len()
        invariant
            i <= signatures@.len(),
            items@.len() == i,
            forall|j: int|
                0 <= j < i ==> json_of(#[trigger] items@[j]) == bytes_json(signatures@[j]@),
        decreases signatures@.len() - i,
    {
        items.push(bytes_value(signatures[i].0.as_slice()));
        i += 1;
    }
    assert(jsons_of(items@) =~= Seq::new(
        signature_views(signatures@).len(),
        |i: int| bytes_json(signature_views(signatures@)[i]),
    ));
    list_value(items)
}

/// The document of a header.
fn header_value(header: &MessageHeader) -> (value: Value)
    ensures
        json_of(value) == header_json(*header),
{
    let mut entries: Vec<(String, Value)> = Vec::new();
    entries.push(
        (
            String::from_str("num_required_signatures"),
            number_value(header.num_required_signatures as u64),
        ),
    );
    entries.push(
        (
            String::from_str("num_readonly_signed_accounts"),
            number_value(header.num_readonly_signed_accounts as u64),
        ),
    );
    entries.push(
        (
            String::from_str("num_readonly_unsigned_accounts"),
            number_value(header.num_readonly_unsigned_accounts as u64),
        ),
    );
    proof {
        lemma_header_names();
        assert(members_of(entries@) =~= header_json(*header)->Record_0);
    }
    record_value(entries)
}

/// The document of an instruction.
fn instruction_value(instruction: &CompiledInstruction) -> (value: Value)
    ensures
        json_of(value) == instruction_json(instruction@),
{
    let mut entries: Vec<(String, Value)> = Vec::new();
    entries.push(
        (String::from_str("program_id_index"), number_value(instruction.program_id_index as u64)),
    );
    entries.push((String::from_str("accounts"), bytes_value(instruction.accounts.as_slice())));
    entries.push((String::from_str("data"), bytes_value(instruction.data.as_slice())));
    proof {
        lemma_instruction_names();
        assert(members_of(entries@) =~= instruction_json(instruction@)->Record_0);
    }
    record_value(entries)
}

/// The document of a list of instructions.
fn instructions_value(instructions: &Vec<CompiledInstruction>) -> (value: Value)
    ensures
        json_of(value) == instructions_json(instruction_views(instructions@)),
{
    let mut items: Vec<Value> = Vec::new();
    let mut i: usize = 0;
    while i < instructions.len()
        invariant
            i <= instructions@.len(),
            items@.len() == i,
            forall|j: int|
                0 <= j < i ==> json_of(#[trigger] items@[j]) == instruction_json(
                    instructions@[j]@,
                ),
        decreases instructions@.len() - i,
    {
        items.push(instruction_value(&instructions[i]));
        i += 1;
    }
    assert(jsons_of(items@) =~= Seq::new(
        instruction_views(instructions@).len(),
        |i: int| instruction_json(instruction_views(instructions@)[i]),
    ));
    list_value(items)
}

/// The document of a message.
fn message_value(message: &SolanaMessage) -> (value: Value)
    ensures
        json_of(value) == message_json(message@),
{
    let mut entries: Vec<(String, Value)> = Vec::new();
    entries.push((String::from_str("header"), header_value(&message.header)));
    entries.push((String::from_str("account_keys"), keys_value(&message.account_keys)));
    entries.push(
        (String::from_str("recent_blockhash"), bytes_value(message.recent_blockhash.0.as_slice())),
    );
    entries.push((String::from_str("instructions"), instructions_value(&message.instructions)));
    proof {
        lemma_message_names();
        assert(message@.account_keys =~= key_views(message.account_keys@));
        assert(message@.instructions =~= instruction_views(message.instructions@));
        assert(members_of(entries@) =~= message_json(message@)->Record_0);
    }
    record_value(entries)
}

/// The document of a transaction.
pub fn transaction_value(transaction: &SolanaTransaction) -> (value: Value)
    ensures
        json_of(value) == transaction_json(transaction@),
{
    let mut entries: Vec<(String, Value)> = Vec::new();
    entries.push((String::from_str("signatures"), signatures_value(&transaction.signatures)));
    entries.push((String::from_str("message"), message_value(&transaction.message)));
    proof {
        lemma_transaction_names();
        assert(transaction@.signatures =~= signature_views(transaction.signatures@));
        assert(members_of(entries@) =~= transaction_json(transaction@)->Record_0);
    }
    record_value(entries)
}

/// The indented JSON text that is written for a transaction, if any is.
pub fn transaction_text(transaction: &SolanaTransaction) -> (text: Option<String>)
    ensures
        match text {
            Some(written) => json_pretty(transaction_json(transaction@)) == Some(written@),
            None => json_pretty(transaction_json(transaction@)) is None,
        },
{
    let value = transaction_value(transaction);
    match pretty_text(&value) {
        Ok(written) => Some(written),
        Err(_) => None,
    }
}

/// The text that writing gave, or nothing where it gave an error.
pub open spec fn text_given(written: Result<String, serde_json::Error>) -> Option<Seq<char>> {
    match written {
        Ok(text) => Some(text@),
        Err(_) => None,
    }
}

/// The byte that a document stands for.
fn byte_of(value: &Value) -> (found: Option<u8>)
    ensures
        found == json_byte(json_of(*value)),
{
    match unsigned(value) {
        Some(number) => if number <= 255 {
            Some(number as u8)
        } else {
            None
        },
        None => None,
    }
}

/// The byte string that a document stands for.
fn bytes_of(value: &Value) -> (found: Option<Vec<u8>>)
    ensures
        match found {
            Some(bytes) => json_bytes(json_of(*value)) == Some(bytes@),
            None => json_bytes(json_of(*value)) is None,
        },
{
    let items = match elements(value) {
        Some(items) => items,
        None => {
            return None;
        },
    };
    let ghost documents = jsons_of(items@);
    let mut bytes: Vec<u8> = Vec::new();
    let mut i: usize = 0;
    while i < items.len()
        invariant
            i <= items@.len(),
            documents == jsons_of(items@),
            json_of(*value) == Json::List(documents),
            bytes@.len() == i,
            forall|j: int| 0 <= j < i ==> json_byte(#[trigger] documents[j]) == Some(bytes@[j]),
        decreases items@.len() - i,
    {
        match byte_of(&items[i]) {
            Some(byte) => {
                bytes.push(byte);
            },
            None => {
                assert(json_byte(documents[i as int]) is None);
                return None;
            },
        }
        i += 1;
    }
    assert(bytes@ =~= Seq::new(documents.len(), |i: int| json_byte(documents[i]).unwrap()));
    Some(bytes)
}

/// The 32 bytes that a document stands for.
fn array32_of(value: &Value) -> (found: Option<[u8; 32]>)
    ensures
        match found {
            Some(bytes) => json_sized(json_of(*value), 32) == Some(bytes@),
            None => json_sized(json_of(*value), 32) is None,
        },
{
    match bytes_of(value) {
        Some(bytes) => if bytes.len() == 32 {
            Some(to_array32(bytes.as_slice()))
        } else {
            None
        },
        None => None,
    }
}

/// The 64 bytes that a document stands for.
fn array64_of(value: &Value) -> (found: Option<[u8; 64]>)
    ensures
        match found {
            Some(bytes) => json_sized(json_of(*value), 64) == Some(bytes@),
            None => json_sized(json_of(*value), 64) is None,
        },
{
    match bytes_of(value) {
        Some(bytes) => if bytes.len() == 64 {
            Some(to_array64(bytes.as_slice()))
        } else {
            None
        },
        None => None,
    }
}

/// The keys that a document stands for.
fn keys_of(value: &Value) -> (found: Option<Vec<SolanaPubkey>>)
    ensures
        match found {
            Some(keys) => json_sized_list(json_of(*value), 32) == Some(key_views(keys@)),
            None => json_sized_list(json_of(*value), 32) is None,
        },
{
    let items = match elements(value) {
        Some(items) => items,
        None => {
            return None;
        },
    };
    let ghost documents = jsons_of(items@);
    let mut keys: Vec<SolanaPubkey> = Vec::new();
    let mut i: usize = 0;
    while i < items.len()
        invariant
            i <= items@.len(),
            documents == jsons_of(items@),
            json_of(*value) == Json::List(documents),
            keys@.len() == i,
            forall|j: int|
                0 <= j < i ==> json_sized(#[trigger] documents[j], 32) == Some(keys@[j]@),
        decreases items@.len() - i,
    {
        match array32_of(&items[i]) {
            Some(bytes) => {
                keys.push(SolanaPubkey(bytes));
            },
            None => {
                assert(json_sized(documents[i as int], 32) is None);
                return None;
            },
        }
        i += 1;
    }
    assert(key_views(keys@) =~= Seq::new(
        documents.len(),
        |i: int| json_sized(documents[i], 32).unwrap(),
    ));
    Some(keys)
}

/// The signatures that a document stands for.
fn signatures_of(value: &Value) -> (found: Option<Vec<SolanaSignature>>)
    ensures
        match found {
            Some(signatures) => json_sized_list(json_of(*value), 64) == Some(
                signature_views(signatures@),
            ),
            None => json_sized_list(json_of(*value), 64) is None,
        },
{
    let items = match elements(value) {
        Some(items) => items,
        None => {
            return None;
        },
    };
    let ghost documents = jsons_of(items@);
    let mut signatures: Vec<SolanaSignature> = Vec::new();
    let mut i: usize = 0;
    while i < items.len()
        invariant
            i <= items@.len(),
            documents == jsons_of(items@),
            json_of(*value) == Json::List(documents),
            signatures@.len() == i,
            forall|j: int|
                0 <= j < i ==> json_sized(#[trigger] documents[j], 64) == Some(signatures@[j]@),
        decreases items@.len() - i,
    {
        match array64_of(&items[i]) {
            Some(bytes) => {
                signatures.push(SolanaSignature(bytes));
            },
            None => {
                assert(json_sized(documents[i as int], 64) is None);
                return None;
            },
        }
        i += 1;
    }
    assert(signature_views(signatures@) =~= Seq::new(
        documents.len(),
        |i: int| json_sized(documents[i], 64).unwrap(),
    ));
    Some(signatures)
}

/// The byte that a member of a document stands for.
fn byte_member(value: &Value, name: &str) -> (found: Option<u8>)
    ensures
        found == json_byte_member(json_of(*value), name@),
{
    match member(value, name) {
        Some(inner) => byte_of(inner),
        None => None,
    }
}

/// The byte string that a member of a document stands for.
fn bytes_member(value: &Value, name: &str) -> (found: Option<Vec<u8>>)
    ensures
        match found {
            Some(bytes) => json_bytes_member(json_of(*value), name@) == Some(bytes@),
            None => json_bytes_member(json_of(*value), name@) is None,
        },
{
    match member(value, name) {
        Some(inner) => bytes_of(inner),
        None => None,
    }
}

/// The header that a document stands for.
fn header_of(value: &Value) -> (found: Option<MessageHeader>)
    ensures
        found == json_header(json_of(*value)),
{
    let required = byte_member(value, "num_required_signatures");
    let signed = byte_member(value, "num_readonly_signed_accounts");
    let unsigned = byte_member(value, "num_readonly_unsigned_accounts");
    match (required, signed, unsigned) {
        (Some(required), Some(signed), Some(unsigned)) => Some(
            MessageHeader {
                num_required_signatures: required,
                num_readonly_signed_accounts: signed,
                num_readonly_unsigned_accounts: unsigned,
            },
        ),
        _ => None,
    }
}

/// The instruction that a document stands for.
fn instruction_of(value: &Value) -> (found: Option<CompiledInstruction>)
    ensures
        match found {
            Some(instruction) => json_instruction(json_of(*value)) == Some(instruction@),
            None => json_instruction(json_of(*value)) is None,
        },
{
    let program_id_index = byte_member(value, "program_id_index");
    let accounts = bytes_member(value, "accounts");
    let data = bytes_member(value, "data");
    match (program_id_index, accounts, data) {
        (Some(program_id_index), Some(accounts), Some(data)) => Some(
            CompiledInstruction { program_id_index, accounts, data },
        ),
        _ => None,
    }
}

/// The instructions that a document stands for.
fn instructions_of(value: &Value) -> (found: Option<Vec<CompiledInstruction>>)
    ensures
        match found {
            Some(instructions) => json_instructions(json_of(*value)) == Some(
                instruction_views(instructions@),
            ),
            None => json_instructions(json_of(*value)) is None,
        },
{
    let items = match elements(value) {
        Some(items) => items,
        None => {
            return None;
        },
    };
    let ghost documents = jsons_of(items@);
    let mut instructions: Vec<CompiledInstruction> = Vec::new();
    let mut i: usize = 0;
    while i < items.len()
        invariant
            i <= items@.len(),
            documents == jsons_of(items@),
            json_of(*value) == Json::List(documents),
            instructions@.len() == i,
            forall|j: int|
                0 <= j < i ==> json_instruction(#[trigger] documents[j]) == Some(
                    instructions@[j]@,
                ),
        decreases items@.len() - i,
    {
        match instruction_of(&items[i]) {
            Some(instruction) => {
                instructions.push(instruction);
            },
            None => {
                assert(json_instruction(documents[i as int]) is None);
                return None;
            },
        }
        i += 1;
    }
    assert(instruction_views(instructions@) =~= Seq::new(
        documents.len(),
        |i: int| json_instruction(documents[i]).unwrap(),
    ));
    Some(instructions)
}

/// The message that a document stands for.
fn message_of(value: &Value) -> (found: Option<SolanaMessage>)
    ensures
        match found {
            Some(message) => json_message(json_of(*value)) == Some(message@),
            None => json_message(json_of(*value)) is None,
        },
{
    let header = match member(value, "header") {
        Some(inner) => inner,
        None => {
            return None;
        },
    };
    let keys = match member(value, "account_keys") {
        Some(inner) => inner,
        None => {
            return None;
        },
    };
    let hash = match member(value, "recent_blockhash") {
        Some(inner) => inner,
        None => {
            return None;
        },
    };
    let list = match member(value, "instructions") {
        Some(inner) => inner,
        None => {
            return None;
        },
    };
    let header = header_of(header);
    let account_keys = keys_of(keys);
    let recent_blockhash = array32_of(hash);
    let instructions = instructions_of(list);
    match (header, account_keys, recent_blockhash, instructions) {
        (Some(header), Some(account_keys), Some(recent_blockhash), Some(instructions)) => {
            let message = SolanaMessage {
                header,
                account_keys,
                recent_blockhash: SolanaHash(recent_blockhash),
                instructions,
            };
            proof {
                assert(message@.account_keys =~= key_views(message.account_keys@));
                assert(message@.instructions =~= instruction_views(message.instructions@));
            }
            Some(message)
        },
        _ => None,
    }
}

/// The transaction that a document stands for, if it stands for one.
pub fn transaction_of(value: &Value) -> (found: Option<SolanaTransaction>)
    ensures
        match found {
            Some(transaction) => json_transaction(json_of(*value)) == Some(transaction@),
            None => json_transaction(json_of(*value)) is None,
        },
{
    let list = match member(value, "signatures") {
        Some(inner) => inner,
        None => {
            return None;
        },
    };
    let inner = match member(value, "message") {
        Some(inner) => inner,
        None => {
            return None;
        },
    };
    let signatures = signatures_of(list);
    let message = message_of(inner);
    match (signatures, message) {
        (Some(signatures), Some(message)) => {
            let transaction = SolanaTransaction { signatures, message };
            assert(transaction@.signatures =~= signature_views(transaction.signatures@));
            Some(transaction)
        },
        _ => None,
    }
}

/// The transaction that JSON text stands for, if it stands for one.
pub fn transaction_of_text(text: &str) -> (found: Option<SolanaTransaction>)
    ensures
        match found {
            Some(transaction) => json_parsed(text@) matches Some(document) && json_transaction(
                document,
            ) == Some(transaction@),
            None => json_parsed(text@) matches Some(document) ==> json_transaction(document)
                is None,
        },
{
    match parse_value(text) {
        Ok(value) => transaction_of(&value),
        Err(_) => None,
    }
}

} // verus!
