//! The local state store: record tables for accounts, notes and
//! transactions, keyed by id, plus the sync checkpoint singleton.
//!
//! The store is the single lock boundary of the engine: every other
//! component reads records out of it and submits changed records back
//! through the atomic per-record upserts below. Reads reflect the latest
//! completed upsert of each record.
use vstd::prelude::*;
use crate::account::{AccountRecord, AccountRecordV, vault_wf};
use crate::note::{NoteRecord, NoteRecordV, note_views};
use crate::seq_find::{find_first, find_idx, lemma_find_idx, lemma_find_idx_push,
    lemma_find_idx_push_other, lemma_find_idx_update, lemma_find_idx_update_other,
    lemma_unique_push, lemma_unique_update, unique_by};
use crate::transaction::{TransactionRecord, TransactionRecordV, tx_views};
use crate::types::{AccountId, NoteStatus, SyncCheckpoint, TransactionStatus, Word4};

verus! {

/// Key of an account table row.
pub open spec fn account_key() -> spec_fn(AccountRecordV) -> AccountId {
    |a: AccountRecordV| a.id
}

/// Key of a note table row.
pub open spec fn note_key() -> spec_fn(NoteRecordV) -> u64 {
    |n: NoteRecordV| n.id
}

/// Key of a transaction table row.
pub open spec fn tx_key() -> spec_fn(TransactionRecordV) -> u64 {
    |t: TransactionRecordV| t.id
}

/// The account rows with a given id.
pub open spec fn by_account(id: AccountId) -> spec_fn(AccountRecordV) -> bool {
    |a: AccountRecordV| a.id == id
}

/// The note rows with a given id.
pub open spec fn by_note(id: u64) -> spec_fn(NoteRecordV) -> bool {
    |n: NoteRecordV| n.id == id
}

/// The transaction rows with a given id.
pub open spec fn by_tx(id: u64) -> spec_fn(TransactionRecordV) -> bool {
    |t: TransactionRecordV| t.id == id
}

/// Mathematical view of the whole store.
#[verifier::ext_equal]
pub struct StoreV {
    pub accounts: Seq<AccountRecordV>,
    pub notes: Seq<NoteRecordV>,
    pub transactions: Seq<TransactionRecordV>,
    pub checkpoint: SyncCheckpoint,
}

impl StoreV {
    /// Well-formedness: each table holds at most one row per id, and every
    /// stored vault is well-formed.
    pub open spec fn wf(self) -> bool {
        &&& unique_by(self.accounts, account_key())
        &&& unique_by(self.notes, note_key())
        &&& unique_by(self.transactions, tx_key())
        &&& forall|k: int|
            0 <= k < self.accounts.len() ==> vault_wf((#[trigger] self.accounts[k]).vault)
    }
}

/// The account record with the given id, if the store tracks one.
pub open spec fn spec_account(s: StoreV, id: AccountId) -> Option<AccountRecordV> {
    find_first(s.accounts, by_account(id))
}

/// The note record with the given id, if the store tracks one.
pub open spec fn spec_note(s: StoreV, id: u64) -> Option<NoteRecordV> {
    find_first(s.notes, by_note(id))
}

/// The transaction record with the given id, if the store tracks one.
pub open spec fn spec_transaction(s: StoreV, id: u64) -> Option<TransactionRecordV> {
    find_first(s.transactions, by_tx(id))
}

/// The notes of a table standing in a given lifecycle state, in table
/// order.
pub open spec fn spec_notes_with_status(notes: Seq<NoteRecordV>, status: NoteStatus) -> Seq<
    NoteRecordV,
>
    decreases notes.len(),
{
    if notes.len() == 0 {
        Seq::empty()
    } else {
        let rest = spec_notes_with_status(notes.drop_last(), status);
        if notes.last().status == status {
            rest.push(notes.last())
        } else {
            rest
        }
    }
}

/// The transactions of a table standing in a given lifecycle state, in
/// table order.
pub open spec fn spec_transactions_with_status(
    transactions: Seq<TransactionRecordV>,
    status: TransactionStatus,
) -> Seq<TransactionRecordV>
    decreases transactions.len(),
{
    if transactions.len() == 0 {
        Seq::empty()
    } else {
        let rest = spec_transactions_with_status(transactions.drop_last(), status);
        if transactions.last().status == status {
            rest.push(transactions.last())
        } else {
            rest
        }
    }
}

/// A note record with its status replaced.
pub open spec fn with_status(n: NoteRecordV, status: NoteStatus) -> NoteRecordV {
    NoteRecordV { id: n.id, assets: n.assets, metadata: n.metadata, recipient: n.recipient, status }
}

/// A transaction record with its status replaced.
pub open spec fn with_tx_status(t: TransactionRecordV, status: TransactionStatus) -> TransactionRecordV {
    TransactionRecordV {
        id: t.id,
        account: t.account,
        status,
        input_notes: t.input_notes,
        output_notes: t.output_notes,
    }
}

/// Durable local cache of accounts, notes and transaction records, plus the
/// sync checkpoint.
pub struct Store {
    pub accounts: Vec<AccountRecord>,
    pub notes: Vec<NoteRecord>,
    pub transactions: Vec<TransactionRecord>,
    pub checkpoint: SyncCheckpoint,
}

impl View for Store {
    type V = StoreV;

    open spec fn view(&self) -> StoreV {
        StoreV {
            accounts: self.accounts@.map_values(|a: AccountRecord| a@),
            notes: self.notes@.map_values(|n: NoteRecord| n@),
            transactions: self.transactions@.map_values(|t: TransactionRecord| t@),
            checkpoint: self.checkpoint,
        }
    }
}

impl Store {
    /// An empty store at block zero.
    pub fn new() -> (s: Store)
        ensures
            s@.accounts =~= Seq::<AccountRecordV>::empty(),
            s@.notes =~= Seq::<NoteRecordV>::empty(),
            s@.transactions =~= Seq::<TransactionRecordV>::empty(),
            s@.checkpoint.block_num == 0,
            s@.wf(),
    {
        let s = Store {
            accounts: Vec::new(),
            notes: Vec::new(),
            transactions: Vec::new(),
            checkpoint: SyncCheckpoint {
                block_num: 0,
                block_commitment: Word4 { e0: 0, e1: 0, e2: 0, e3: 0 },
            },
        };
        proof {
            assert(s@.accounts =~= Seq::<AccountRecordV>::empty());
            assert(s@.notes =~= Seq::<NoteRecordV>::empty());
            assert(s@.transactions =~= Seq::<TransactionRecordV>::empty());
        }
        s
    }

    /// Position of the account row with the given id.
    fn account_idx(&self, id: AccountId) -> (r: Option<usize>)
        ensures
            match r {
                Some(i) => i < self.accounts@.len() && find_idx(self@.accounts, by_account(id))
                    == i as int,
                None => find_idx(self@.accounts, by_account(id)) == -1,
            },
    {
        let ghost p = by_account(id);
        let mut i: usize = 0;
        while i < self.accounts.len()
            invariant
                0 <= i <= self.accounts@.len(),
                p == by_account(id),
                self@.accounts.len() == self.accounts@.len(),
                forall|k: int|
                    0 <= k < self.accounts@.len() ==> #[trigger] self@.accounts[k]
                        == self.accounts@[k]@,
                forall|k: int| 0 <= k < i ==> !p(#[trigger] self@.accounts[k]),
            decreases self.accounts@.len() - i,
        {
            if self.accounts[i].id == id {
                proof {
                    lemma_find_idx(self@.accounts, p);
                    assert(p(self@.accounts[i as int]));
                    let fi = find_idx(self@.accounts, p);
                    if fi == -1 {
                        assert(!p(self@.accounts[i as int]));
                        assert(false);
                    } else if fi < i as int {
                        assert(!p(self@.accounts[fi]));
                        assert(false);
                    } else if fi > i as int {
                        assert(!p(self@.accounts[i as int]));
                        assert(false);
                    }
                }
                return Some(i);
            }
            i = i + 1;
        }
        proof {
            lemma_find_idx(self@.accounts, p);
            if find_idx(self@.accounts, p) >= 0 {
                assert(p(self@.accounts[find_idx(self@.accounts, p)]));
                assert(false);
            }
        }
        None
    }

    /// Position of the note row with the given id.
    fn note_idx(&self, id: u64) -> (r: Option<usize>)
        ensures
            match r {
                Some(i) => i < self.notes@.len() && find_idx(self@.notes, by_note(id)) == i as int,
                None => find_idx(self@.notes, by_note(id)) == -1,
            },
    {
        let ghost p = by_note(id);
        let mut i: usize = 0;
        while i < self.notes.len()
            invariant
                0 <= i <= self.notes@.len(),
                p == by_note(id),
                self@.notes.len() == self.notes@.len(),
                forall|k: int|
                    0 <= k < self.notes@.len() ==> #[trigger] self@.notes[k] == self.notes@[k]@,
                forall|k: int| 0 <= k < i ==> !p(#[trigger] self@.notes[k]),
            decreases self.notes@.len() - i,
        {
            if self.notes[i].id == id {
                proof {
                    lemma_find_idx(self@.notes, p);
                    assert(p(self@.notes[i as int]));
                    let fi = find_idx(self@.notes, p);
                    if fi == -1 {
                        assert(!p(self@.notes[i as int]));
                        assert(false);
                    } else if fi < i as int {
                        assert(!p(self@.notes[fi]));
                        assert(false);
                    } else if fi > i as int {
                        assert(!p(self@.notes[i as int]));
                        assert(false);
                    }
                }
                return Some(i);
            }
            i = i + 1;
        }
        proof {
            lemma_find_idx(self@.notes, p);
            if find_idx(self@.notes, p) >= 0 {
                assert(p(self@.notes[find_idx(self@.notes, p)]));
                assert(false);
            }
        }
        None
    }

    /// Position of the transaction row with the given id.
    fn tx_idx(&self, id: u64) -> (r: Option<usize>)
        ensures
            match r {
                Some(i) => i < self.transactions@.len() && find_idx(
                    self@.transactions,
                    by_tx(id),
                ) == i as int,
                None => find_idx(self@.transactions, by_tx(id)) == -1,
            },
    {
        let ghost p = by_tx(id);
        let mut i: usize = 0;
        while i < self.transactions.len()
            invariant
                0 <= i <= self.transactions@.len(),
                p == by_tx(id),
                self@.transactions.len() == self.transactions@.len(),
                forall|k: int|
                    0 <= k < self.transactions@.len() ==> #[trigger] self@.transactions[k]
                        == self.transactions@[k]@,
                forall|k: int| 0 <= k < i ==> !p(#[trigger] self@.transactions[k]),
            decreases self.transactions@.len() - i,
        {
            if self.transactions[i].id == id {
                proof {
                    lemma_find_idx(self@.transactions, p);
                    assert(p(self@.transactions[i as int]));
                    let fi = find_idx(self@.transactions, p);
                    if fi == -1 {
                        assert(!p(self@.transactions[i as int]));
                        assert(false);
                    } else if fi < i as int {
                        assert(!p(self@.transactions[fi]));
                        assert(false);
                    } else if fi > i as int {
                        assert(!p(self@.transactions[i as int]));
                        assert(false);
                    }
                }
                return Some(i);
            }
            i = i + 1;
        }
        proof {
            lemma_find_idx(self@.transactions, p);
            if find_idx(self@.transactions, p) >= 0 {
                assert(p(self@.transactions[find_idx(self@.transactions, p)]));
                assert(false);
            }
        }
        None
    }

    /// Looks up an account by id. `None` means "not yet synced", never a
    /// fatal condition.
    pub fn get_account(&self, id: AccountId) -> (r: Option<AccountRecord>)
        ensures
            match r {
                Some(a) => spec_account(self@, id) == Some(a@),
                None => spec_account(self@, id) is None,
            },
    {
        match self.account_idx(id) {
            Some(i) => {
                let a = self.accounts[i].duplicate();
                proof {
                    assert(self@.accounts[i as int] == self.accounts@[i as int]@);
                }
                Some(a)
            },
            None => None,
        }
    }

    /// Looks up a note by id.
    pub fn get_note(&self, id: u64) -> (r: Option<NoteRecord>)
        ensures
            match r {
                Some(n) => spec_note(self@, id) == Some(n@),
                None => spec_note(self@, id) is None,
            },
    {
        match self.note_idx(id) {
            Some(i) => {
                let n = self.notes[i].duplicate();
                proof {
                    assert(self@.notes[i as int] == self.notes@[i as int]@);
                }
                Some(n)
            },
            None => None,
        }
    }

    /// Looks up a transaction by id.
    pub fn get_transaction(&self, id: u64) -> (r: Option<TransactionRecord>)
        ensures
            match r {
                Some(t) => spec_transaction(self@, id) == Some(t@),
                None => spec_transaction(self@, id) is None,
            },
    {
        match self.tx_idx(id) {
            Some(i) => {
                let t = self.transactions[i].duplicate();
                proof {
                    assert(self@.transactions[i as int] == self.transactions@[i as int]@);
                }
                Some(t)
            },
            None => None,
        }
    }

    /// Inserts or overwrites the account row with `a.id`, atomically for that
    /// record; no other record changes.
    pub fn upsert_account(&mut self, a: AccountRecord)
        requires
            old(self)@.wf(),
            vault_wf(a@.vault),
        ensures
            final(self)@.wf(),
            spec_account(final(self)@, a.id) == Some(a@),
            forall|x: AccountId|
                x != a.id ==> spec_account(final(self)@, x) == spec_account(old(self)@, x),
            final(self)@.notes == old(self)@.notes,
            final(self)@.transactions == old(self)@.transactions,
            final(self)@.checkpoint == old(self)@.checkpoint,
    {
        let ghost p = by_account(a.id);
        let ghost key = account_key();
        let ghost olds = self@.accounts;
        match self.account_idx(a.id) {
            Some(i) => {
                proof {
                    lemma_find_idx(olds, p);
                }
                let ghost av = a@;
                self.accounts[i] = a;
                proof {
                    assert(self@.accounts =~= olds.update(i as int, av));
                    lemma_find_idx_update(olds, p, i as int, av);
                    assert forall|x: AccountId| x != av.id implies find_first(
                        self@.accounts,
                        by_account(x),
                    ) == find_first(olds, by_account(x)) by {
                        let q = by_account(x);
                        assert(!q(olds[i as int]));
                        assert(!q(av));
                        lemma_find_idx_update_other(olds, q, i as int, av);
                        lemma_find_idx(olds, q);
                        let fi = find_idx(olds, q);
                        if fi >= 0 {
                            assert(self@.accounts[fi] == olds[fi]);
                        }
                    }
                    assert(key(olds[i as int]) == key(av));
                    lemma_unique_update(olds, key, i as int, av);
                    assert forall|k: int|
                        0 <= k < self@.accounts.len() implies vault_wf(
                        (#[trigger] self@.accounts[k]).vault,
                    ) by {
                        if k != i as int {
                            assert(self@.accounts[k] == olds[k]);
                        }
                    }
                }
            },
            None => {
                proof {
                    lemma_find_idx(olds, p);
                }
                let ghost av = a@;
                self.accounts.push(a);
                proof {
                    assert(self@.accounts =~= olds.push(av));
                    lemma_find_idx_push(olds, p, av);
                    assert forall|x: AccountId| x != av.id implies find_first(
                        self@.accounts,
                        by_account(x),
                    ) == find_first(olds, by_account(x)) by {
                        let q = by_account(x);
                        assert(!q(av));
                        lemma_find_idx_push_other(olds, q, av);
                        lemma_find_idx(olds, q);
                        let fi = find_idx(olds, q);
                        if fi >= 0 {
                            assert(self@.accounts[fi] == olds[fi]);
                        }
                    }
                    assert forall|k: int| 0 <= k < olds.len() implies key(#[trigger] olds[k])
                        != key(av) by {
                        assert(!p(olds[k]));
                    }
                    lemma_unique_push(olds, key, av);
                    assert forall|k: int|
                        0 <= k < self@.accounts.len() implies vault_wf(
                        (#[trigger] self@.accounts[k]).vault,
                    ) by {
                        if k < olds.len() {
                            assert(self@.accounts[k] == olds[k]);
                        } else {
                            assert(self@.accounts[k] == av);
                        }
                    }
                }
            },
        }
    }

    /// Inserts or overwrites the note row with `n.id`, atomically for that
    /// record; no other record changes.
    pub fn upsert_note(&mut self, n: NoteRecord)
        requires
            old(self)@.wf(),
        ensures
            final(self)@.wf(),
            spec_note(final(self)@, n.id) == Some(n@),
            forall|x: u64| x != n.id ==> spec_note(final(self)@, x) == spec_note(old(self)@, x),
            final(self)@.accounts == old(self)@.accounts,
            final(self)@.transactions == old(self)@.transactions,
            final(self)@.checkpoint == old(self)@.checkpoint,
    {
        let ghost p = by_note(n.id);
        let ghost key = note_key();
        let ghost olds = self@.notes;
        match self.note_idx(n.id) {
            Some(i) => {
                proof {
                    lemma_find_idx(olds, p);
                }
                let ghost nv = n@;
                self.notes[i] = n;
                proof {
                    assert(self@.notes =~= olds.update(i as int, nv));
                    lemma_find_idx_update(olds, p, i as int, nv);
                    assert forall|x: u64| x != nv.id implies find_first(self@.notes, by_note(x))
                        == find_first(olds, by_note(x)) by {
                        let q = by_note(x);
                        assert(!q(olds[i as int]));
                        assert(!q(nv));
                        lemma_find_idx_update_other(olds, q, i as int, nv);
                        lemma_find_idx(olds, q);
                        let fi = find_idx(olds, q);
                        if fi >= 0 {
                            assert(self@.notes[fi] == olds[fi]);
                        }
                    }
                    assert(key(olds[i as int]) == key(nv));
                    lemma_unique_update(olds, key, i as int, nv);
                }
            },
            None => {
                proof {
                    lemma_find_idx(olds, p);
                }
                let ghost nv = n@;
                self.notes.push(n);
                proof {
                    assert(self@.notes =~= olds.push(nv));
                    lemma_find_idx_push(olds, p, nv);
                    assert forall|x: u64| x != nv.id implies find_first(self@.notes, by_note(x))
                        == find_first(olds, by_note(x)) by {
                        let q = by_note(x);
                        assert(!q(nv));
                        lemma_find_idx_push_other(olds, q, nv);
                        lemma_find_idx(olds, q);
                        let fi = find_idx(olds, q);
                        if fi >= 0 {
                            assert(self@.notes[fi] == olds[fi]);
                        }
                    }
                    assert forall|k: int| 0 <= k < olds.len() implies key(#[trigger] olds[k])
                        != key(nv) by {
                        assert(!p(olds[k]));
                    }
                    lemma_unique_push(olds, key, nv);
                }
            },
        }
    }

    /// Inserts or overwrites the transaction row with `t.id`, atomically for
    /// that record; no other record changes.
    pub fn upsert_transaction(&mut self, t: TransactionRecord)
        requires
            old(self)@.wf(),
        ensures
            final(self)@.wf(),
            spec_transaction(final(self)@, t.id) == Some(t@),
            forall|x: u64|
                x != t.id ==> spec_transaction(final(self)@, x) == spec_transaction(
                    old(self)@,
                    x,
                ),
            final(self)@.accounts == old(self)@.accounts,
            final(self)@.notes == old(self)@.notes,
            final(self)@.checkpoint == old(self)@.checkpoint,
    {
        let ghost p = by_tx(t.id);
        let ghost key = tx_key();
        let ghost olds = self@.transactions;
        match self.tx_idx(t.id) {
            Some(i) => {
                proof {
                    lemma_find_idx(olds, p);
                }
                let ghost tv = t@;
                self.transactions[i] = t;
                proof {
                    assert(self@.transactions =~= olds.update(i as int, tv));
                    lemma_find_idx_update(olds, p, i as int, tv);
                    assert forall|x: u64| x != tv.id implies find_first(
                        self@.transactions,
                        by_tx(x),
                    ) == find_first(olds, by_tx(x)) by {
                        let q = by_tx(x);
                        assert(!q(olds[i as int]));
                        assert(!q(tv));
                        lemma_find_idx_update_other(olds, q, i as int, tv);
                        lemma_find_idx(olds, q);
                        let fi = find_idx(olds, q);
                        if fi >= 0 {
                            assert(self@.transactions[fi] == olds[fi]);
                        }
                    }
                    assert(key(olds[i as int]) == key(tv));
                    lemma_unique_update(olds, key, i as int, tv);
                }
            },
            None => {
                proof {
                    lemma_find_idx(olds, p);
                }
                let ghost tv = t@;
                self.transactions.push(t);
                proof {
                    assert(self@.transactions =~= olds.push(tv));
                    lemma_find_idx_push(olds, p, tv);
                    assert forall|x: u64| x != tv.id implies find_first(
                        self@.transactions,
                        by_tx(x),
                    ) == find_first(olds, by_tx(x)) by {
                        let q = by_tx(x);
                        assert(!q(tv));
                        lemma_find_idx_push_other(olds, q, tv);
                        lemma_find_idx(olds, q);
                        let fi = find_idx(olds, q);
                        if fi >= 0 {
                            assert(self@.transactions[fi] == olds[fi]);
                        }
                    }
                    assert forall|k: int| 0 <= k < olds.len() implies key(#[trigger] olds[k])
                        != key(tv) by {
                        assert(!p(olds[k]));
                    }
                    lemma_unique_push(olds, key, tv);
                }
            },
        }
    }

    /// Marks the note as consumed by the given transaction. Returns whether
    /// the note was found; when it was not, nothing changes.
    pub fn mark_note_consumed(&mut self, note_id: u64, tx_id: u64) -> (found: bool)
        requires
            old(self)@.wf(),
        ensures
            final(self)@.wf(),
            found == (spec_note(old(self)@, note_id) is Some),
            found ==> spec_note(final(self)@, note_id) == Some(
                with_status(
                    spec_note(old(self)@, note_id)->Some_0,
                    NoteStatus::Consumed { by: tx_id },
                ),
            ),
            !found ==> final(self)@ == old(self)@,
            forall|x: u64|
                x != note_id ==> spec_note(final(self)@, x) == spec_note(old(self)@, x),
            final(self)@.accounts == old(self)@.accounts,
            final(self)@.transactions == old(self)@.transactions,
            final(self)@.checkpoint == old(self)@.checkpoint,
    {
        proof {
            lemma_find_idx(self@.notes, by_note(note_id));
        }
        match self.get_note(note_id) {
            Some(n) => {
                let updated = NoteRecord {
                    id: n.id,
                    assets: n.assets,
                    metadata: n.metadata,
                    recipient: n.recipient,
                    status: NoteStatus::Consumed { by: tx_id },
                };
                proof {
                    assert(updated@ =~= with_status(
                        spec_note(old(self)@, note_id)->Some_0,
                        NoteStatus::Consumed { by: tx_id },
                    ));
                }
                self.upsert_note(updated);
                true
            },
            None => {
                proof {
                    assert(self@ =~= old(self)@);
                }
                false
            },
        }
    }

    /// Sets the status of the transaction. Returns whether the record was
    /// found; when it was not, nothing changes.
    pub fn set_transaction_status(&mut self, tx_id: u64, status: TransactionStatus) -> (found:
        bool)
        requires
            old(self)@.wf(),
        ensures
            final(self)@.wf(),
            found == (spec_transaction(old(self)@, tx_id) is Some),
            found ==> spec_transaction(final(self)@, tx_id) == Some(
                with_tx_status(spec_transaction(old(self)@, tx_id)->Some_0, status),
            ),
            !found ==> final(self)@ == old(self)@,
            forall|x: u64|
                x != tx_id ==> spec_transaction(final(self)@, x) == spec_transaction(
                    old(self)@,
                    x,
                ),
            final(self)@.accounts == old(self)@.accounts,
            final(self)@.notes == old(self)@.notes,
            final(self)@.checkpoint == old(self)@.checkpoint,
    {
        proof {
            lemma_find_idx(self@.transactions, by_tx(tx_id));
        }
        match self.get_transaction(tx_id) {
            Some(t) => {
                let updated = TransactionRecord {
                    id: t.id,
                    account: t.account,
                    status,
                    input_notes: t.input_notes,
                    output_notes: t.output_notes,
                };
                proof {
                    assert(updated@ =~= with_tx_status(
                        spec_transaction(old(self)@, tx_id)->Some_0,
                        status,
                    ));
                }
                self.upsert_transaction(updated);
                true
            },
            None => {
                proof {
                    assert(self@ =~= old(self)@);
                }
                false
            },
        }
    }

    /// Lists the notes standing in the given lifecycle state, in store
    /// order.
    pub fn get_notes_with_status(&self, status: NoteStatus) -> (r: Vec<NoteRecord>)
        ensures
            note_views(r@) == spec_notes_with_status(self@.notes, status),
    {
        let mut r: Vec<NoteRecord> = Vec::new();
        let mut i: usize = 0;
        while i < self.notes.len()
            invariant
                0 <= i <= self.notes@.len(),
                self@.notes.len() == self.notes@.len(),
                forall|k: int|
                    0 <= k < self.notes@.len() ==> #[trigger] self@.notes[k] == self.notes@[k]@,
                note_views(r@) =~= spec_notes_with_status(self@.notes.take(i as int), status),
            decreases self.notes@.len() - i,
        {
            proof {
                assert(self@.notes.take(i as int + 1).drop_last() =~= self@.notes.take(i as int));
                assert(self@.notes.take(i as int + 1).last() == self@.notes[i as int]);
            }
            let matches_status = match (&self.notes[i].status, &status) {
                (NoteStatus::Expected, NoteStatus::Expected) => true,
                (NoteStatus::Unconsumed, NoteStatus::Unconsumed) => true,
                (NoteStatus::Consumed { by: a }, NoteStatus::Consumed { by: b }) => a == b,
                (NoteStatus::Expired, NoteStatus::Expired) => true,
                _ => false,
            };
            proof {
                assert(matches_status == (self@.notes[i as int].status == status));
            }
            if matches_status {
                let ghost prev = r@;
                r.push(self.notes[i].duplicate());
                proof {
                    assert(note_views(r@) =~= note_views(prev).push(self@.notes[i as int]));
                }
            }
            i = i + 1;
        }
        proof {
            assert(self@.notes.take(self@.notes.len() as int) =~= self@.notes);
        }
        r
    }

    /// Lists the transactions standing in the given lifecycle state, in
    /// store order.
    pub fn get_transactions_with_status(&self, status: TransactionStatus) -> (r: Vec<
        TransactionRecord,
    >)
        ensures
            tx_views(r@) == spec_transactions_with_status(self@.transactions, status),
    {
        let mut r: Vec<TransactionRecord> = Vec::new();
        let mut i: usize = 0;
        while i < self.transactions.len()
            invariant
                0 <= i <= self.transactions@.len(),
                self@.transactions.len() == self.transactions@.len(),
                forall|k: int|
                    0 <= k < self.transactions@.len() ==> #[trigger] self@.transactions[k]
                        == self.transactions@[k]@,
                tx_views(r@) =~= spec_transactions_with_status(
                    self@.transactions.take(i as int),
                    status,
                ),
            decreases self.transactions@.len() - i,
        {
            proof {
                assert(self@.transactions.take(i as int + 1).drop_last() =~= self@.transactions.take(
                    i as int,
                ));
                assert(self@.transactions.take(i as int + 1).last() == self@.transactions[i as int]);
            }
            let matches_status = match (&self.transactions[i].status, &status) {
                (TransactionStatus::Pending, TransactionStatus::Pending) => true,
                (TransactionStatus::Committed { block: a }, TransactionStatus::Committed {
                    block: b,
                }) => a == b,
                (TransactionStatus::Discarded, TransactionStatus::Discarded) => true,
                _ => false,
            };
            proof {
                assert(matches_status == (self@.transactions[i as int].status == status));
            }
            if matches_status {
                let ghost prev = r@;
                r.push(self.transactions[i].duplicate());
                proof {
                    assert(tx_views(r@) =~= tx_views(prev).push(self@.transactions[i as int]));
                }
            }
            i = i + 1;
        }
        proof {
            assert(self@.transactions.take(self@.transactions.len() as int) =~= self@.transactions);
        }
        r
    }

    /// Advances the sync checkpoint.
    pub fn set_checkpoint(&mut self, checkpoint: SyncCheckpoint)
        ensures
            final(self)@ == (StoreV {
                accounts: old(self)@.accounts,
                notes: old(self)@.notes,
                transactions: old(self)@.transactions,
                checkpoint,
            }),
    {
        self.checkpoint = checkpoint;
        proof {
            assert(self@ =~= StoreV {
                accounts: old(self)@.accounts,
                notes: old(self)@.notes,
                transactions: old(self)@.transactions,
                checkpoint,
            });
        }
    }
}

} // verus!
