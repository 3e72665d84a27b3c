//! The account ledger: a table from address to account in which no address
//! occurs twice.

use crate::bytes::bytes32_equal;
use crate::types::{Account, AccountView, Pubkey};
use vstd::prelude::*;

verus! {

/// What the ledger holds: at most one account for each address.
pub type LedgerView = Map<Seq<u8>, AccountView>;

/// Where `key` stands among `entries`, if it does.
pub open spec fn position_of(entries: Seq<(Pubkey, Account)>, key: Seq<u8>) -> Option<int> {
    if exists|i: int| 0 <= i < entries.len() && entries[i].0@ == key {
        Some(choose|i: int| 0 <= i < entries.len() && entries[i].0@ == key)
    } else {
        None
    }
}

/// No address occurs twice in `entries`.
pub open spec fn distinct_keys(entries: Seq<(Pubkey, Account)>) -> bool {
    forall|i: int, j: int| 0 <= i < j < entries.len() ==> entries[i].0@ != entries[j].0@
}

/// The table that `entries` stands for.
pub open spec fn table_of(entries: Seq<(Pubkey, Account)>) -> LedgerView {
    Map::new(
        |key: Seq<u8>| position_of(entries, key) is Some,
        |key: Seq<u8>| entries[position_of(entries, key).unwrap()].1@,
    )
}

/// Putting a new value at the place of an entry changes the table at that
/// entry's address alone.
proof fn lemma_update_entry(entries: Seq<(Pubkey, Account)>, i: int, account: Account)
    requires
        distinct_keys(entries),
        0 <= i < entries.len(),
    ensures
        distinct_keys(entries.update(i, (entries[i].0, account))),
        table_of(entries.update(i, (entries[i].0, account))) == table_of(entries).insert(
            entries[i].0@,
            account@,
        ),
{
    let after = entries.update(i, (entries[i].0, account));
    assert forall|k: Seq<u8>| position_of(after, k) == position_of(entries, k) by {
        if position_of(entries, k) is Some {
            let j = position_of(entries, k).unwrap();
            assert(after[j].0@ == k);
        }
        if position_of(after, k) is Some {
            let j = position_of(after, k).unwrap();
            assert(entries[j].0@ == k);
        }
    }
    assert(position_of(entries, entries[i].0@) == Some(i));
    assert(table_of(after) =~= table_of(entries).insert(entries[i].0@, account@));
}

/// A new address at the end adds one entry to the table.
proof fn lemma_push_entry(entries: Seq<(Pubkey, Account)>, key: Pubkey, account: Account)
    requires
        distinct_keys(entries),
        position_of(entries, key@) is None,
    ensures
        distinct_keys(entries.push((key, account))),
        table_of(entries.push((key, account))) == table_of(entries).insert(key@, account@),
{
    let after = entries.push((key, account));
    let n = entries.len() as int;
    assert(after[n].0@ == key@);
    assert forall|k: Seq<u8>| k != key@ implies position_of(after, k) == position_of(
        entries,
        k,
    ) by {
        if position_of(entries, k) is Some {
            let j = position_of(entries, k).unwrap();
            assert(after[j].0@ == k);
        }
        if position_of(after, k) is Some {
            let j = position_of(after, k).unwrap();
            assert(entries[j].0@ == k);
        }
    }
    assert(position_of(after, key@) == Some(n));
    assert(table_of(after) =~= table_of(entries).insert(key@, account@));
}

/// Entries that agree in address and content stand for the same table.
proof fn lemma_same_entries(a: Seq<(Pubkey, Account)>, b: Seq<(Pubkey, Account)>)
    requires
        a.len() == b.len(),
        forall|j: int| 0 <= j < a.len() ==> a[j].0@ == b[j].0@ && a[j].1@ == b[j].1@,
        distinct_keys(a),
    ensures
        distinct_keys(b),
        table_of(a) == table_of(b),
{
    assert forall|k: Seq<u8>| position_of(a, k) == position_of(b, k) by {
        if position_of(a, k) is Some {
            let j = position_of(a, k).unwrap();
            assert(b[j].0@ == k);
        }
        if position_of(b, k) is Some {
            let j = position_of(b, k).unwrap();
            assert(a[j].0@ == k);
        }
    }
    assert(table_of(a) =~= table_of(b));
}

/// A table from address to account. Entries are added and changed, never
/// removed.
#[derive(Debug)]
pub struct AccountTable {
    entries: Vec<(Pubkey, Account)>,
}

impl View for AccountTable {
    type V = LedgerView;

    closed spec fn view(&self) -> LedgerView {
        table_of(self.entries@)
    }
}

impl Clone for AccountTable {
    /// A table of its own that holds the same entries.
    fn clone(&self) -> (copy: Self)
        ensures
            copy@ == self@,
    {
        proof {
            use_type_invariant(self);
        }
        let mut entries: Vec<(Pubkey, Account)> = Vec::new();
        let mut i: usize = 0;
        while i < self.entries.len()
            invariant
                i <= self.entries@.len(),
                entries@.len() == i,
                forall|j: int|
                    0 <= j < i ==> entries@[j].0@ == self.entries@[j].0@ && entries@[j].1@
                        == self.entries@[j].1@,
            decreases self.entries@.len() - i,
        {
            entries.push((self.entries[i].0, self.entries[i].1.duplicate()));
            i += 1;
        }
        proof {
            lemma_same_entries(self.entries@, entries@);
        }
        AccountTable { entries }
    }
}

impl AccountTable {
    #[verifier::type_invariant]
    spec fn well_formed(self) -> bool {
        distinct_keys(self.entries@)
    }

    /// A table without entries.
    pub fn new() -> (table: Self)
        ensures
            table@ == Map::<Seq<u8>, AccountView>::empty(),
    {
        let table = AccountTable { entries: Vec::new() };
        assert(table@ =~= Map::<Seq<u8>, AccountView>::empty());
        table
    }

    fn find(&self, key: &Pubkey) -> (found: Option<usize>)
        ensures
            match found {
                Some(i) => i < self.entries@.len() && self.entries@[i as int].0@ == key@
                    && position_of(self.entries@, key@) == Some(i as int),
                None => position_of(self.entries@, key@) is None,
            },
    {
        proof {
            use_type_invariant(self);
        }
        let mut i: usize = 0;
        while i < self.entries.len()
            invariant
                i <= self.entries@.len(),
                distinct_keys(self.entries@),
                forall|j: int| 0 <= j < i ==> self.entries@[j].0@ != key@,
            decreases self.entries@.len() - i,
        {
            if bytes32_equal(&self.entries[i].0.0, &key.0) {
                return Some(i);
            }
            i += 1;
        }
        None
    }

    /// Whether the table has an entry for `key`.
    pub fn contains_key(&self, key: &Pubkey) -> (present: bool)
        ensures
            present == self@.dom().contains(key@),
    {
        self.find(key).is_some()
    }

    /// The entry for `key`, if there is one.
    pub fn get(&self, key: &Pubkey) -> (entry: Option<&Account>)
        ensures
            match entry {
                Some(account) => self@.dom().contains(key@) && account@ == self@[key@],
                None => !self@.dom().contains(key@),
            },
    {
        match self.find(key) {
            Some(i) => Some(&self.entries[i].1),
            None => None,
        }
    }

    /// Sets the balance of the entry for `key`, and says whether there is
    /// such an entry. Without one the table stays as it is.
    pub fn set_lamports(&mut self, key: &Pubkey, lamports: u64) -> (found: bool)
        ensures
            found == old(self)@.dom().contains(key@),
            found ==> final(self)@ == old(self)@.insert(
                key@,
                AccountView { lamports, ..old(self)@[key@] },
            ),
            !found ==> final(self)@ == old(self)@,
    {
        proof {
            use_type_invariant(&*self);
        }
        match self.find(key) {
            Some(i) => {
                let mut entries: Vec<(Pubkey, Account)> = Vec::new();
                std::mem::swap(&mut self.entries, &mut entries);
                let ghost before = entries@;
                entries[i].1.lamports = lamports;
                proof {
                    lemma_update_entry(before, i as int, entries@[i as int].1);
                    assert(entries@ =~= before.update(
                        i as int,
                        (before[i as int].0, entries@[i as int].1),
                    ));
                }
                std::mem::swap(&mut self.entries, &mut entries);
                true
            },
            None => false,
        }
    }

    /// Sets the owner of the entry for `key`, and says whether there is such
    /// an entry. Without one the table stays as it is.
    pub fn set_owner(&mut self, key: &Pubkey, owner: [u8; 32]) -> (found: bool)
        ensures
            found == old(self)@.dom().contains(key@),
            found ==> final(self)@ == old(self)@.insert(
                key@,
                AccountView { owner: owner@, ..old(self)@[key@] },
            ),
            !found ==> final(self)@ == old(self)@,
    {
        proof {
            use_type_invariant(&*self);
        }
        match self.find(key) {
            Some(i) => {
                let mut entries: Vec<(Pubkey, Account)> = Vec::new();
                std::mem::swap(&mut self.entries, &mut entries);
                let ghost before = entries@;
                entries[i].1.owner = owner;
                proof {
                    lemma_update_entry(before, i as int, entries@[i as int].1);
                    assert(entries@ =~= before.update(
                        i as int,
                        (before[i as int].0, entries@[i as int].1),
                    ));
                }
                std::mem::swap(&mut self.entries, &mut entries);
                true
            },
            None => false,
        }
    }

    /// Puts `account` under `key`, in place of what stood there.
    pub fn insert(&mut self, key: Pubkey, account: Account)
        ensures
            final(self)@ == old(self)@.insert(key@, account@),
    {
        proof {
            use_type_invariant(&*self);
        }
        let found = self.find(&key);
        let mut entries: Vec<(Pubkey, Account)> = Vec::new();
        std::mem::swap(&mut self.entries, &mut entries);
        match found {
            Some(i) => {
                proof {
                    lemma_update_entry(entries@, i as int, account);
                }
                let stored = entries[i].0;
                entries[i] = (stored, account);
            },
            None => {
                proof {
                    lemma_push_entry(entries@, key, account);
                }
                entries.push((key, account));
            },
        }
        std::mem::swap(&mut self.entries, &mut entries);
    }
}

} // verus!
