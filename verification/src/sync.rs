//! The chain sync client's reconciliation step: merging a remote delta into
//! the local store.
//!
//! The network pull itself sits outside the engine; what arrives is a
//! [`SyncDelta`] of plain values. Reconciliation follows the monotonic-merge
//! rules: a remote account overwrites the local record only when its nonce
//! is at least the local one (stale remote responses are silently ignored);
//! remote notes are inserted only if absent, and a note the store merely
//! expected is confirmed as unconsumed; notes consumed on chain are
//! marked consumed; committed transactions move from `Pending` to
//! `Committed`; and a still-pending transaction whose input was consumed by
//! a different transaction is discarded. Applying the same delta twice
//! changes nothing more: see [`lemma_sync_idempotent`].
use vstd::prelude::*;
use crate::account::{AccountRecord, AccountRecordV, vault_wf};
use crate::note::{NoteRecord, NoteRecordV};
use crate::seq_find::{find_first, find_idx, lemma_find_idx, lemma_find_idx_push,
    lemma_find_idx_push_other, lemma_unique_update, unique_by};
use crate::store::{Store, StoreV, account_key, by_account, by_note, by_tx, note_key,
    spec_account, spec_note, spec_transaction, tx_key, with_status, with_tx_status};
use crate::transaction::{TransactionRecord, TransactionRecordV};
use crate::types::{AccountId, EngineError, NoteStatus, SyncCheckpoint, TransactionStatus,
    Word4, vec_contains_u64};

verus! {

/// One batch of remote truth: everything that changed since the last
/// checkpoint, as plain values.
pub struct SyncDelta {
    /// Height of the block this delta brings the local view up to.
    pub block_num: u32,
    /// Commitment of that block.
    pub block_commitment: Word4,
    /// Remote state of tracked accounts.
    pub accounts: Vec<AccountRecord>,
    /// Notes newly seen on chain, unconsumed.
    pub notes: Vec<NoteRecord>,
    /// Notes consumed on chain: (note id, consuming transaction id).
    pub consumed: Vec<(u64, u64)>,
    /// Transactions committed on chain: (transaction id, block height).
    pub committed: Vec<(u64, u32)>,
}

/// Mathematical view of [`SyncDelta`].
#[verifier::ext_equal]
pub struct SyncDeltaV {
    pub block_num: u32,
    pub block_commitment: Word4,
    pub accounts: Seq<AccountRecordV>,
    pub notes: Seq<NoteRecordV>,
    pub consumed: Seq<(u64, u64)>,
    pub committed: Seq<(u64, u32)>,
}

impl View for SyncDelta {
    type V = SyncDeltaV;

    open spec fn view(&self) -> SyncDeltaV {
        SyncDeltaV {
            block_num: self.block_num,
            block_commitment: self.block_commitment,
            accounts: self.accounts@.map_values(|a: AccountRecord| a@),
            notes: self.notes@.map_values(|n: NoteRecord| n@),
            consumed: self.consumed@,
            committed: self.committed@,
        }
    }
}

/// Key of a consumption entry.
pub open spec fn cons_key() -> spec_fn((u64, u64)) -> u64 {
    |e: (u64, u64)| e.0
}

/// Key of a commitment entry.
pub open spec fn commit_key() -> spec_fn((u64, u32)) -> u64 {
    |e: (u64, u32)| e.0
}

/// The consumption entries for a given note id.
pub open spec fn by_cons(id: u64) -> spec_fn((u64, u64)) -> bool {
    |e: (u64, u64)| e.0 == id
}

/// The commitment entries for a given transaction id.
pub open spec fn by_commit(id: u64) -> spec_fn((u64, u32)) -> bool {
    |e: (u64, u32)| e.0 == id
}

impl SyncDeltaV {
    /// A well-formed delta names each account, note and transaction at most
    /// once, carries well-formed vaults, and reports new notes as
    /// unconsumed.
    pub open spec fn wf(self) -> bool {
        &&& unique_by(self.accounts, account_key())
        &&& unique_by(self.notes, note_key())
        &&& unique_by(self.consumed, cons_key())
        &&& unique_by(self.committed, commit_key())
        &&& forall|k: int|
            0 <= k < self.accounts.len() ==> vault_wf((#[trigger] self.accounts[k]).vault)
        &&& forall|k: int|
            0 <= k < self.notes.len() ==> (#[trigger] self.notes[k]).status
                == NoteStatus::Unconsumed
    }
}

/// Whether a remote account record overwrites the local one: it does
/// whenever the local record is absent or its nonce is not ahead of the
/// remote nonce.
pub open spec fn spec_remote_wins(local: Option<AccountRecordV>, remote: AccountRecordV) -> bool {
    match local {
        Some(l) => remote.nonce >= l.nonce,
        None => true,
    }
}

/// The account record with the given id after merging the remote accounts
/// into the store.
pub open spec fn spec_merge_accounts(
    old: StoreV,
    accs: Seq<AccountRecordV>,
    id: AccountId,
) -> Option<AccountRecordV> {
    match find_first(accs, by_account(id)) {
        Some(r) => if spec_remote_wins(spec_account(old, id), r) {
            Some(r)
        } else {
            spec_account(old, id)
        },
        None => spec_account(old, id),
    }
}

/// The note record with the given id after taking in the remote notes: a
/// note the store does not track is inserted; a note the store merely
/// expects, and the chain now shows, moves to unconsumed; anything else is
/// kept as it is.
pub open spec fn spec_insert_notes(old: StoreV, notes: Seq<NoteRecordV>, id: u64) -> Option<
    NoteRecordV,
> {
    match spec_note(old, id) {
        Some(b) => if b.status == NoteStatus::Expected && find_first(notes, by_note(id)) is Some {
            Some(with_status(b, NoteStatus::Unconsumed))
        } else {
            Some(b)
        },
        None => find_first(notes, by_note(id)),
    }
}

/// A note state after applying the on-chain consumption entries to it.
pub open spec fn spec_apply_consumed(
    base: Option<NoteRecordV>,
    consumed: Seq<(u64, u64)>,
    id: u64,
) -> Option<NoteRecordV> {
    match base {
        Some(b) => match find_first(consumed, by_cons(id)) {
            Some(c) => Some(with_status(b, NoteStatus::Consumed { by: c.1 })),
            None => Some(b),
        },
        None => None,
    }
}

/// A transaction state after applying the commitment entries to it: a
/// pending transaction reported committed moves to `Committed` at the
/// reported height.
pub open spec fn spec_apply_committed(
    base: Option<TransactionRecordV>,
    committed: Seq<(u64, u32)>,
    id: u64,
) -> Option<TransactionRecordV> {
    match base {
        Some(t) => if t.status == TransactionStatus::Pending {
            match find_first(committed, by_commit(id)) {
                Some(c) => Some(with_tx_status(t, TransactionStatus::Committed { block: c.1 })),
                None => Some(t),
            }
        } else {
            Some(t)
        },
        None => None,
    }
}

/// Whether one of the transaction's input notes was consumed by a different
/// transaction.
pub open spec fn spec_conflicted(t: TransactionRecordV, consumed: Seq<(u64, u64)>) -> bool {
    exists|j: int|
        0 <= j < consumed.len() && t.input_notes.contains((#[trigger] consumed[j]).0)
            && consumed[j].1 != t.id
}

/// A transaction after the discard rule: still pending and conflicted means
/// discarded.
pub open spec fn spec_discarded_tx(t: TransactionRecordV, consumed: Seq<(u64, u64)>) -> TransactionRecordV {
    if t.status == TransactionStatus::Pending && spec_conflicted(t, consumed) {
        with_tx_status(t, TransactionStatus::Discarded)
    } else {
        t
    }
}

/// The note record with the given id after a full sync of the delta.
pub open spec fn spec_synced_note(old: StoreV, d: SyncDeltaV, id: u64) -> Option<NoteRecordV> {
    spec_apply_consumed(spec_insert_notes(old, d.notes, id), d.consumed, id)
}

/// The transaction record with the given id after a full sync of the delta.
pub open spec fn spec_synced_tx(old: StoreV, d: SyncDeltaV, id: u64) -> Option<TransactionRecordV> {
    match spec_apply_committed(spec_transaction(old, id), d.committed, id) {
        Some(t) => Some(spec_discarded_tx(t, d.consumed)),
        None => None,
    }
}

/// Ids of the delta accounts that overwrite the local record.
pub open spec fn spec_updated_ids(old: StoreV, accs: Seq<AccountRecordV>) -> Seq<AccountId>
    decreases accs.len(),
{
    if accs.len() == 0 {
        Seq::empty()
    } else {
        let rest = spec_updated_ids(old, accs.drop_last());
        if spec_remote_wins(spec_account(old, accs.last().id), accs.last()) {
            rest.push(accs.last().id)
        } else {
            rest
        }
    }
}

/// Ids of the delta notes that the store did not yet track.
pub open spec fn spec_new_note_ids(old: StoreV, notes: Seq<NoteRecordV>) -> Seq<u64>
    decreases notes.len(),
{
    if notes.len() == 0 {
        Seq::empty()
    } else {
        let rest = spec_new_note_ids(old, notes.drop_last());
        if spec_note(old, notes.last().id) is None {
            rest.push(notes.last().id)
        } else {
            rest
        }
    }
}

/// Ids of the reported commitments that moved a local pending transaction to
/// committed.
pub open spec fn spec_committed_ids(old: StoreV, committed: Seq<(u64, u32)>) -> Seq<u64>
    decreases committed.len(),
{
    if committed.len() == 0 {
        Seq::empty()
    } else {
        let rest = spec_committed_ids(old, committed.drop_last());
        let last = committed.last();
        if spec_transaction(old, last.0) is Some && spec_transaction(old, last.0)->Some_0.status
            == TransactionStatus::Pending {
            rest.push(last.0)
        } else {
            rest
        }
    }
}

/// Two stores with the same note table miss the same delta notes.
proof fn lemma_new_note_ids_same(a: StoreV, b: StoreV, notes: Seq<NoteRecordV>)
    requires
        a.notes == b.notes,
    ensures
        spec_new_note_ids(a, notes) == spec_new_note_ids(b, notes),
    decreases notes.len(),
{
    if notes.len() > 0 {
        lemma_new_note_ids_same(a, b, notes.drop_last());
        assert(spec_note(a, notes.last().id) == spec_note(b, notes.last().id));
    }
}

/// Two stores with the same transaction table move the same pending
/// transactions to committed.
proof fn lemma_committed_ids_same(a: StoreV, b: StoreV, committed: Seq<(u64, u32)>)
    requires
        a.transactions == b.transactions,
    ensures
        spec_committed_ids(a, committed) == spec_committed_ids(b, committed),
    decreases committed.len(),
{
    if committed.len() > 0 {
        lemma_committed_ids_same(a, b, committed.drop_last());
        assert(spec_transaction(a, committed.last().0) == spec_transaction(b, committed.last().0));
    }
}

/// What one sync reports back: the new height and what changed locally.
pub struct SyncSummary {
    pub block_num: u32,
    pub updated_accounts: Vec<AccountId>,
    pub new_notes: Vec<u64>,
    pub committed_tx_ids: Vec<u64>,
}

/// Merges the delta's remote accounts into the store under the monotonic
/// rule, returning the ids that were overwritten.
fn merge_accounts(store: &mut Store, delta: &SyncDelta) -> (updated: Vec<AccountId>)
    requires
        old(store)@.wf(),
        delta@.wf(),
    ensures
        final(store)@.wf(),
        forall|id: AccountId|
            #[trigger] spec_account(final(store)@, id) == spec_merge_accounts(
                old(store)@,
                delta@.accounts,
                id,
            ),
        final(store)@.notes == old(store)@.notes,
        final(store)@.transactions == old(store)@.transactions,
        final(store)@.checkpoint == old(store)@.checkpoint,
        updated@ == spec_updated_ids(old(store)@, delta@.accounts),
{
    let ghost old_v = old(store)@;
    let ghost das = delta@.accounts;
    let mut updated: Vec<AccountId> = Vec::new();
    let mut i: usize = 0;
    while i < delta.accounts.len()
        invariant
            store@.wf(),
            delta@.wf(),
            das == delta@.accounts,
            old_v.wf(),
            0 <= i <= delta.accounts@.len(),
            delta@.accounts.len() == delta.accounts@.len(),
            forall|k: int|
                0 <= k < delta.accounts@.len() ==> #[trigger] delta@.accounts[k]
                    == delta.accounts@[k]@,
            forall|id: AccountId|
                #[trigger] spec_account(store@, id) == spec_merge_accounts(
                    old_v,
                    das.take(i as int),
                    id,
                ),
            store@.notes == old_v.notes,
            store@.transactions == old_v.transactions,
            store@.checkpoint == old_v.checkpoint,
            updated@ == spec_updated_ids(old_v, das.take(i as int)),
        decreases delta.accounts@.len() - i,
    {
        let a = delta.accounts[i].duplicate();
        let ghost av = das[i as int];
        proof {
            assert(a@ == av);
            // The prefix holds no row with this id.
            lemma_find_idx(das.take(i as int), by_account(av.id));
            let fi = find_idx(das.take(i as int), by_account(av.id));
            if fi >= 0 {
                assert(by_account(av.id)(das.take(i as int)[fi]));
                assert(account_key()(das[fi]) == account_key()(das[i as int]));
                assert(false);
            }
            assert(spec_account(store@, av.id) == spec_account(old_v, av.id));
            assert(das.take(i as int + 1) =~= das.take(i as int).push(av));
            assert(das.take(i as int + 1).drop_last() =~= das.take(i as int));
        }
        let wins = match store.get_account(a.id) {
            Some(local) => a.nonce >= local.nonce,
            None => true,
        };
        proof {
            assert(wins == spec_remote_wins(spec_account(old_v, av.id), av));
        }
        let ghost pre = store@;
        if wins {
            let id = a.id;
            store.upsert_account(a);
            updated.push(id);
            proof {
                lemma_find_idx_push(das.take(i as int), by_account(av.id), av);
                assert forall|x: AccountId|
                    #[trigger] spec_account(store@, x) == spec_merge_accounts(
                    old_v,
                    das.take(i as int + 1),
                    x,
                ) by {
                    if x == av.id {
                        assert(spec_account(store@, x) == Some(av));
                        assert(find_first(das.take(i as int + 1), by_account(x)) == Some(av));
                    } else {
                        assert(!by_account(x)(av));
                        lemma_find_idx_push_other(das.take(i as int), by_account(x), av);
                        lemma_find_idx(das.take(i as int), by_account(x));
                        let fj = find_idx(das.take(i as int), by_account(x));
                        if fj >= 0 {
                            assert(das.take(i as int + 1)[fj] == das.take(i as int)[fj]);
                        }
                        assert(spec_account(store@, x) == spec_account(pre, x));
                    }
                }
            }
        } else {
            proof {
                lemma_find_idx_push(das.take(i as int), by_account(av.id), av);
                assert forall|x: AccountId|
                    #[trigger] spec_account(store@, x) == spec_merge_accounts(
                    old_v,
                    das.take(i as int + 1),
                    x,
                ) by {
                    if x == av.id {
                        assert(find_first(das.take(i as int + 1), by_account(x)) == Some(av));
                        assert(spec_account(store@, x) == spec_account(old_v, x));
                    } else {
                        assert(!by_account(x)(av));
                        lemma_find_idx_push_other(das.take(i as int), by_account(x), av);
                        lemma_find_idx(das.take(i as int), by_account(x));
                        let fj = find_idx(das.take(i as int), by_account(x));
                        if fj >= 0 {
                            assert(das.take(i as int + 1)[fj] == das.take(i as int)[fj]);
                        }
                    }
                }
            }
        }
        i = i + 1;
    }
    proof {
        assert(das.take(das.len() as int) =~= das);
    }
    updated
}

/// Takes in the delta's notes: inserts the ones the store does not track,
/// confirms the ones it merely expected, and returns the inserted ids.
fn insert_new_notes(store: &mut Store, delta: &SyncDelta) -> (new_notes: Vec<u64>)
    requires
        old(store)@.wf(),
        delta@.wf(),
    ensures
        final(store)@.wf(),
        forall|id: u64|
            #[trigger] spec_note(final(store)@, id) == spec_insert_notes(
                old(store)@,
                delta@.notes,
                id,
            ),
        final(store)@.accounts == old(store)@.accounts,
        final(store)@.transactions == old(store)@.transactions,
        final(store)@.checkpoint == old(store)@.checkpoint,
        new_notes@ == spec_new_note_ids(old(store)@, delta@.notes),
{
    let ghost old_v = old(store)@;
    let ghost dns = delta@.notes;
    let mut new_notes: Vec<u64> = Vec::new();
    let mut i: usize = 0;
    while i < delta.notes.len()
        invariant
            store@.wf(),
            delta@.wf(),
            dns == delta@.notes,
            0 <= i <= delta.notes@.len(),
            delta@.notes.len() == delta.notes@.len(),
            forall|k: int|
                0 <= k < delta.notes@.len() ==> #[trigger] delta@.notes[k] == delta.notes@[k]@,
            forall|id: u64|
                #[trigger] spec_note(store@, id) == spec_insert_notes(
                    old_v,
                    dns.take(i as int),
                    id,
                ),
            store@.accounts == old_v.accounts,
            store@.transactions == old_v.transactions,
            store@.checkpoint == old_v.checkpoint,
            new_notes@ == spec_new_note_ids(old_v, dns.take(i as int)),
        decreases delta.notes@.len() - i,
    {
        let n = delta.notes[i].duplicate();
        let ghost nv = dns[i as int];
        proof {
            assert(n@ == nv);
            lemma_find_idx(dns.take(i as int), by_note(nv.id));
            let fi = find_idx(dns.take(i as int), by_note(nv.id));
            if fi >= 0 {
                assert(by_note(nv.id)(dns.take(i as int)[fi]));
                assert(note_key()(dns[fi]) == note_key()(dns[i as int]));
                assert(false);
            }
            assert(spec_note(store@, nv.id) == spec_note(old_v, nv.id));
            assert(dns.take(i as int + 1) =~= dns.take(i as int).push(nv));
            assert(dns.take(i as int + 1).drop_last() =~= dns.take(i as int));
        }
        let ghost pre = store@;
        proof {
            lemma_find_idx(store@.notes, by_note(n.id));
        }
        match store.get_note(n.id) {
            Some(existing) => {
                match existing.status {
                    NoteStatus::Expected => {
                        let updated = NoteRecord {
                            id: existing.id,
                            assets: existing.assets,
                            metadata: existing.metadata,
                            recipient: existing.recipient,
                            status: NoteStatus::Unconsumed,
                        };
                        proof {
                            assert(updated@ =~= with_status(
                                spec_note(pre, nv.id)->Some_0,
                                NoteStatus::Unconsumed,
                            ));
                        }
                        store.upsert_note(updated);
                    },
                    _ => {},
                }
            },
            None => {
                let id = n.id;
                store.upsert_note(n);
                new_notes.push(id);
            },
        }
        proof {
            lemma_find_idx_push(dns.take(i as int), by_note(nv.id), nv);
            assert forall|x: u64|
                #[trigger] spec_note(store@, x) == spec_insert_notes(
                old_v,
                dns.take(i as int + 1),
                x,
            ) by {
                if x == nv.id {
                    assert(find_first(dns.take(i as int + 1), by_note(x)) == Some(nv));
                    match spec_note(old_v, x) {
                        Some(b) => {
                            assert(spec_note(pre, x) == Some(b));
                            if b.status == NoteStatus::Expected {
                                assert(spec_note(store@, x) == Some(
                                    with_status(b, NoteStatus::Unconsumed),
                                ));
                            } else {
                                assert(spec_note(store@, x) == spec_note(old_v, x));
                            }
                        },
                        None => {
                            assert(spec_note(store@, x) == Some(nv));
                        },
                    }
                } else {
                    assert(!by_note(x)(nv));
                    lemma_find_idx_push_other(dns.take(i as int), by_note(x), nv);
                    lemma_find_idx(dns.take(i as int), by_note(x));
                    let fj = find_idx(dns.take(i as int), by_note(x));
                    if fj >= 0 {
                        assert(dns.take(i as int + 1)[fj] == dns.take(i as int)[fj]);
                    }
                    assert(spec_note(store@, x) == spec_note(pre, x));
                }
            }
        }
        i = i + 1;
    }
    proof {
        assert(dns.take(dns.len() as int) =~= dns);
    }
    new_notes
}

/// Marks the notes the delta reports consumed on chain.
fn apply_consumed(store: &mut Store, delta: &SyncDelta)
    requires
        old(store)@.wf(),
        delta@.wf(),
    ensures
        final(store)@.wf(),
        forall|id: u64|
            #[trigger] spec_note(final(store)@, id) == spec_apply_consumed(
                spec_note(old(store)@, id),
                delta@.consumed,
                id,
            ),
        final(store)@.accounts == old(store)@.accounts,
        final(store)@.transactions == old(store)@.transactions,
        final(store)@.checkpoint == old(store)@.checkpoint,
{
    let ghost old_v = old(store)@;
    let ghost dcs = delta@.consumed;
    let mut i: usize = 0;
    while i < delta.consumed.len()
        invariant
            store@.wf(),
            delta@.wf(),
            dcs == delta@.consumed,
            0 <= i <= delta.consumed@.len(),
            delta@.consumed == delta.consumed@,
            forall|id: u64|
                #[trigger] spec_note(store@, id) == spec_apply_consumed(
                    spec_note(old_v, id),
                    dcs.take(i as int),
                    id,
                ),
            store@.accounts == old_v.accounts,
            store@.transactions == old_v.transactions,
            store@.checkpoint == old_v.checkpoint,
        decreases delta.consumed@.len() - i,
    {
        let (nid, tid) = delta.consumed[i];
        let ghost cv = dcs[i as int];
        proof {
            assert(cv == (nid, tid));
            lemma_find_idx(dcs.take(i as int), by_cons(nid));
            let fi = find_idx(dcs.take(i as int), by_cons(nid));
            if fi >= 0 {
                assert(by_cons(nid)(dcs.take(i as int)[fi]));
                assert(cons_key()(dcs[fi]) == cons_key()(dcs[i as int]));
                assert(false);
            }
            assert(spec_note(store@, nid) == spec_apply_consumed(
                spec_note(old_v, nid),
                dcs.take(i as int),
                nid,
            ));
            assert(dcs.take(i as int + 1) =~= dcs.take(i as int).push(cv));
        }
        let ghost pre = store@;
        store.mark_note_consumed(nid, tid);
        proof {
            lemma_find_idx_push(dcs.take(i as int), by_cons(nid), cv);
            assert forall|x: u64|
                #[trigger] spec_note(store@, x) == spec_apply_consumed(
                spec_note(old_v, x),
                dcs.take(i as int + 1),
                x,
            ) by {
                if x == nid {
                    assert(find_first(dcs.take(i as int + 1), by_cons(x)) == Some(cv));
                    match spec_note(old_v, x) {
                        Some(b) => {
                            assert(spec_note(pre, x) is Some);
                            assert(spec_note(store@, x) == Some(
                                with_status(
                                    spec_note(pre, x)->Some_0,
                                    NoteStatus::Consumed { by: tid },
                                ),
                            ));
                            assert(with_status(
                                spec_note(pre, x)->Some_0,
                                NoteStatus::Consumed { by: tid },
                            ) =~= with_status(b, NoteStatus::Consumed { by: tid }));
                        },
                        None => {
                            assert(spec_note(pre, x) is None);
                        },
                    }
                } else {
                    assert(!by_cons(x)(cv));
                    lemma_find_idx_push_other(dcs.take(i as int), by_cons(x), cv);
                    lemma_find_idx(dcs.take(i as int), by_cons(x));
                    let fj = find_idx(dcs.take(i as int), by_cons(x));
                    if fj >= 0 {
                        assert(dcs.take(i as int + 1)[fj] == dcs.take(i as int)[fj]);
                    }
                    assert(spec_note(store@, x) == spec_note(pre, x));
                }
            }
        }
        i = i + 1;
    }
    proof {
        assert(dcs.take(dcs.len() as int) =~= dcs);
    }
}

/// Moves pending transactions that the delta reports committed to
/// `Committed`, returning their ids.
fn apply_committed(store: &mut Store, delta: &SyncDelta) -> (committed_ids: Vec<u64>)
    requires
        old(store)@.wf(),
        delta@.wf(),
    ensures
        final(store)@.wf(),
        forall|id: u64|
            #[trigger] spec_transaction(final(store)@, id) == spec_apply_committed(
                spec_transaction(old(store)@, id),
                delta@.committed,
                id,
            ),
        final(store)@.accounts == old(store)@.accounts,
        final(store)@.notes == old(store)@.notes,
        final(store)@.checkpoint == old(store)@.checkpoint,
        committed_ids@ == spec_committed_ids(old(store)@, delta@.committed),
{
    let ghost old_v = old(store)@;
    let ghost dms = delta@.committed;
    let mut committed_ids: Vec<u64> = Vec::new();
    let mut i: usize = 0;
    while i < delta.committed.len()
        invariant
            store@.wf(),
            delta@.wf(),
            dms == delta@.committed,
            0 <= i <= delta.committed@.len(),
            delta@.committed == delta.committed@,
            forall|id: u64|
                #[trigger] spec_transaction(store@, id) == spec_apply_committed(
                    spec_transaction(old_v, id),
                    dms.take(i as int),
                    id,
                ),
            store@.accounts == old_v.accounts,
            store@.notes == old_v.notes,
            store@.checkpoint == old_v.checkpoint,
            committed_ids@ == spec_committed_ids(old_v, dms.take(i as int)),
        decreases delta.committed@.len() - i,
    {
        let (tid, height) = delta.committed[i];
        let ghost cv = dms[i as int];
        proof {
            assert(cv == (tid, height));
            lemma_find_idx(dms.take(i as int), by_commit(tid));
            let fi = find_idx(dms.take(i as int), by_commit(tid));
            if fi >= 0 {
                assert(by_commit(tid)(dms.take(i as int)[fi]));
                assert(commit_key()(dms[fi]) == commit_key()(dms[i as int]));
                assert(false);
            }
            assert(spec_transaction(store@, tid) == spec_apply_committed(
                spec_transaction(old_v, tid),
                dms.take(i as int),
                tid,
            ));
            assert(dms.take(i as int + 1) =~= dms.take(i as int).push(cv));
            assert(dms.take(i as int + 1).drop_last() =~= dms.take(i as int));
        }
        let ghost pre = store@;
        let transitioned = match store.get_transaction(tid) {
            Some(t) => match t.status {
                TransactionStatus::Pending => {
                    store.set_transaction_status(
                        tid,
                        TransactionStatus::Committed { block: height },
                    );
                    true
                },
                _ => false,
            },
            None => false,
        };
        if transitioned {
            committed_ids.push(tid);
        }
        proof {
            lemma_find_idx_push(dms.take(i as int), by_commit(tid), cv);
            assert forall|x: u64|
                #[trigger] spec_transaction(store@, x) == spec_apply_committed(
                spec_transaction(old_v, x),
                dms.take(i as int + 1),
                x,
            ) by {
                if x == tid {
                    assert(find_first(dms.take(i as int + 1), by_commit(x)) == Some(cv));
                    match spec_transaction(old_v, x) {
                        Some(t) => {
                            if t.status == TransactionStatus::Pending {
                                assert(spec_transaction(pre, x) == Some(t));
                                assert(spec_transaction(store@, x) == Some(
                                    with_tx_status(
                                        t,
                                        TransactionStatus::Committed { block: height },
                                    ),
                                ));
                            } else {
                                assert(spec_transaction(pre, x) == spec_apply_committed(
                                    Some(t),
                                    dms.take(i as int),
                                    x,
                                ));
                                assert(spec_transaction(store@, x) == spec_transaction(pre, x));
                            }
                        },
                        None => {
                            assert(spec_transaction(pre, x) is None);
                            assert(spec_transaction(store@, x) is None);
                        },
                    }
                } else {
                    assert(!by_commit(x)(cv));
                    lemma_find_idx_push_other(dms.take(i as int), by_commit(x), cv);
                    lemma_find_idx(dms.take(i as int), by_commit(x));
                    let fj = find_idx(dms.take(i as int), by_commit(x));
                    if fj >= 0 {
                        assert(dms.take(i as int + 1)[fj] == dms.take(i as int)[fj]);
                    }
                    assert(spec_transaction(store@, x) == spec_transaction(pre, x));
                }
            }
        }
        i = i + 1;
    }
    proof {
        assert(dms.take(dms.len() as int) =~= dms);
    }
    committed_ids
}

/// Whether one of the transaction's inputs was consumed by a different
/// transaction, per the delta's consumption entries.
fn is_conflicted(t: &TransactionRecord, consumed: &Vec<(u64, u64)>) -> (b: bool)
    ensures
        b == spec_conflicted(t@, consumed@),
{
    let mut j: usize = 0;
    while j < consumed.len()
        invariant
            0 <= j <= consumed@.len(),
            forall|k: int|
                0 <= k < j ==> !(t@.input_notes.contains((#[trigger] consumed@[k]).0)
                    && consumed@[k].1 != t@.id),
        decreases consumed@.len() - j,
    {
        let (nid, tid) = consumed[j];
        if tid != t.id && vec_contains_u64(&t.input_notes, nid) {
            proof {
                assert(t@.input_notes.contains((consumed@[j as int]).0) && consumed@[j as int].1
                    != t@.id);
            }
            return true;
        }
        j = j + 1;
    }
    proof {
        if spec_conflicted(t@, consumed@) {
            let k = choose|k: int|
                0 <= k < consumed@.len() && t@.input_notes.contains((#[trigger] consumed@[k]).0)
                    && consumed@[k].1 != t@.id;
            assert(false);
        }
    }
    false
}

/// Discards every still-pending transaction that lost one of its inputs to a
/// different transaction.
fn discard_conflicted(store: &mut Store, delta: &SyncDelta)
    requires
        old(store)@.wf(),
        delta@.wf(),
    ensures
        final(store)@.wf(),
        forall|id: u64|
            #[trigger] spec_transaction(final(store)@, id) == match spec_transaction(
                old(store)@,
                id,
            ) {
                Some(t) => Some(spec_discarded_tx(t, delta@.consumed)),
                None => None,
            },
        final(store)@.accounts == old(store)@.accounts,
        final(store)@.notes == old(store)@.notes,
        final(store)@.checkpoint == old(store)@.checkpoint,
{
    let ghost old_v = old(store)@;
    let ghost dcs = delta@.consumed;
    let mut i: usize = 0;
    let n = store.transactions.len();
    while i < n
        invariant
            store@.wf(),
            delta@.wf(),
            dcs == delta@.consumed,
            0 <= i <= n,
            n == store.transactions@.len(),
            store@.transactions.len() == store.transactions@.len(),
            old_v.transactions.len() == store@.transactions.len(),
            forall|k: int|
                0 <= k < store.transactions@.len() ==> #[trigger] store@.transactions[k]
                    == store.transactions@[k]@,
            forall|k: int|
                0 <= k < n ==> #[trigger] store@.transactions[k] == if k < i as int {
                    spec_discarded_tx(old_v.transactions[k], dcs)
                } else {
                    old_v.transactions[k]
                },
            store@.accounts == old_v.accounts,
            store@.notes == old_v.notes,
            store@.checkpoint == old_v.checkpoint,
        decreases n - i,
    {
        let pending = match store.transactions[i].status {
            TransactionStatus::Pending => true,
            _ => false,
        };
        let conflicted = if pending {
            is_conflicted(&store.transactions[i], &delta.consumed)
        } else {
            false
        };
        let ghost pre = store@;
        if conflicted {
            let t = store.transactions[i].duplicate();
            let upd = TransactionRecord {
                id: t.id,
                account: t.account,
                status: TransactionStatus::Discarded,
                input_notes: t.input_notes,
                output_notes: t.output_notes,
            };
            proof {
                assert(upd@ =~= with_tx_status(pre.transactions[i as int], TransactionStatus::Discarded));
            }
            store.transactions[i] = upd;
            proof {
                assert(store@.transactions =~= pre.transactions.update(i as int, upd@));
                assert(tx_key()(pre.transactions[i as int]) == tx_key()(upd@));
                lemma_unique_update(pre.transactions, tx_key(), i as int, upd@);
                assert forall|k: int|
                    0 <= k < n implies #[trigger] store@.transactions[k] == if k < i as int + 1 {
                    spec_discarded_tx(old_v.transactions[k], dcs)
                } else {
                    old_v.transactions[k]
                } by {
                    if k != i as int {
                        assert(store@.transactions[k] == pre.transactions[k]);
                    } else {
                        assert(store@.transactions[k] == upd@);
                        assert(spec_discarded_tx(old_v.transactions[k], dcs) == with_tx_status(
                            old_v.transactions[k],
                            TransactionStatus::Discarded,
                        ));
                    }
                }
            }
        } else {
            proof {
                assert forall|k: int|
                    0 <= k < n implies #[trigger] store@.transactions[k] == if k < i as int + 1 {
                    spec_discarded_tx(old_v.transactions[k], dcs)
                } else {
                    old_v.transactions[k]
                } by {
                    if k == i as int {
                        assert(store@.transactions[k] == old_v.transactions[k]);
                        assert(!(old_v.transactions[k].status == TransactionStatus::Pending
                            && spec_conflicted(old_v.transactions[k], dcs)));
                    }
                }
            }
        }
        i = i + 1;
    }
    proof {
        let s1 = old_v.transactions;
        let s2 = store@.transactions;
        assert forall|id: u64|
            #[trigger] spec_transaction(store@, id) == match spec_transaction(old_v, id) {
            Some(t) => Some(spec_discarded_tx(t, dcs)),
            None => None,
        } by {
            lemma_find_idx(s1, by_tx(id));
            lemma_find_idx(s2, by_tx(id));
            let a = find_idx(s1, by_tx(id));
            let b = find_idx(s2, by_tx(id));
            assert forall|k: int| 0 <= k < s1.len() implies (#[trigger] s2[k]).id == s1[k].id by {
                assert(s2[k] == spec_discarded_tx(s1[k], dcs));
            }
            if a == -1 {
                if b >= 0 {
                    assert(by_tx(id)(s2[b]));
                    assert(!by_tx(id)(s1[b]));
                    assert(false);
                }
            } else {
                assert(by_tx(id)(s1[a]));
                assert(by_tx(id)(s2[a]));
                if b == -1 {
                    assert(!by_tx(id)(s2[a]));
                    assert(false);
                } else if b < a {
                    assert(by_tx(id)(s2[b]));
                    assert(!by_tx(id)(s1[b]));
                    assert(false);
                } else if b > a {
                    assert(!by_tx(id)(s2[a]));
                    assert(false);
                }
                assert(s2[a] == spec_discarded_tx(s1[a], dcs));
            }
        }
    }
}

/// Reconciles one remote delta into the store.
///
/// A delta older than the checkpoint is rejected with `SyncError` and the
/// store is untouched: checkpoint advancement stays monotonic, and a failed
/// sync corrupts nothing. On success the checkpoint moves to the delta's
/// block and every record follows the merge rules; the summary reports the
/// new height, the overwritten accounts, the inserted notes and the
/// transactions that moved to committed. Syncing the same delta again is a
/// no-op: see [`lemma_sync_idempotent`].
pub fn apply_sync(store: &mut Store, delta: &SyncDelta) -> (r: Result<SyncSummary, EngineError>)
    requires
        old(store)@.wf(),
        delta@.wf(),
    ensures
        final(store)@.wf(),
        match r {
            Ok(summary) => {
                &&& delta.block_num >= old(store)@.checkpoint.block_num
                &&& final(store)@.checkpoint == (SyncCheckpoint {
                    block_num: delta.block_num,
                    block_commitment: delta.block_commitment,
                })
                &&& forall|id: AccountId|
                    #[trigger] spec_account(final(store)@, id) == spec_merge_accounts(
                        old(store)@,
                        delta@.accounts,
                        id,
                    )
                &&& forall|id: u64|
                    #[trigger] spec_note(final(store)@, id) == spec_synced_note(
                        old(store)@,
                        delta@,
                        id,
                    )
                &&& forall|id: u64|
                    #[trigger] spec_transaction(final(store)@, id) == spec_synced_tx(
                        old(store)@,
                        delta@,
                        id,
                    )
                &&& summary.block_num == delta.block_num
                &&& summary.updated_accounts@ == spec_updated_ids(old(store)@, delta@.accounts)
                &&& summary.new_notes@ == spec_new_note_ids(old(store)@, delta@.notes)
                &&& summary.committed_tx_ids@ == spec_committed_ids(old(store)@, delta@.committed)
            },
            Err(e) => {
                &&& e == EngineError::SyncError
                &&& final(store)@ == old(store)@
                &&& delta.block_num < old(store)@.checkpoint.block_num
            },
        },
{
    if delta.block_num < store.checkpoint.block_num {
        proof {
            assert(store@ =~= old(store)@);
        }
        return Err(EngineError::SyncError);
    }
    let ghost s0 = store@;
    let updated_accounts = merge_accounts(store, delta);
    let ghost s1 = store@;
    let new_notes = insert_new_notes(store, delta);
    let ghost s2 = store@;
    apply_consumed(store, delta);
    let ghost s3 = store@;
    let committed_tx_ids = apply_committed(store, delta);
    let ghost s4 = store@;
    discard_conflicted(store, delta);
    let ghost s5 = store@;
    store.set_checkpoint(
        SyncCheckpoint { block_num: delta.block_num, block_commitment: delta.block_commitment },
    );
    proof {
        // Accounts change only in the merge phase.
        assert forall|id: AccountId|
            #[trigger] spec_account(store@, id) == spec_merge_accounts(
            s0,
            delta@.accounts,
            id,
        ) by {
            assert(store@.accounts == s1.accounts);
            assert(spec_account(store@, id) == spec_account(s1, id));
        }
        // Note lookups ignore the account table, so the insert phase sees
        // the original notes, and later phases leave notes alone.
        assert forall|id: u64|
            #[trigger] spec_note(store@, id) == spec_synced_note(s0, delta@, id) by {
            assert(s1.notes == s0.notes);
            assert(spec_note(s1, id) == spec_note(s0, id));
            assert(find_first(s1.notes, by_note(id)) == find_first(s0.notes, by_note(id)));
            assert(spec_insert_notes(s1, delta@.notes, id) == spec_insert_notes(
                s0,
                delta@.notes,
                id,
            ));
            assert(spec_note(s2, id) == spec_insert_notes(s0, delta@.notes, id));
            assert(spec_note(s3, id) == spec_apply_consumed(
                spec_insert_notes(s0, delta@.notes, id),
                delta@.consumed,
                id,
            ));
            assert(store@.notes == s3.notes);
            assert(spec_note(store@, id) == spec_note(s3, id));
        }
        // Transaction lookups ignore the other tables; the commit and
        // discard phases see the original transactions.
        assert forall|id: u64|
            #[trigger] spec_transaction(store@, id) == spec_synced_tx(s0, delta@, id) by {
            assert(s3.transactions == s0.transactions);
            assert(spec_transaction(s3, id) == spec_transaction(s0, id));
            assert(spec_transaction(s4, id) == spec_apply_committed(
                spec_transaction(s0, id),
                delta@.committed,
                id,
            ));
            assert(store@.transactions == s5.transactions);
            assert(spec_transaction(store@, id) == spec_transaction(s5, id));
        }
        // The summaries were computed against the original store.
        assert(s1.notes == s0.notes);
        assert(spec_new_note_ids(s1, delta@.notes) == spec_new_note_ids(s0, delta@.notes)) by {
            lemma_new_note_ids_same(s1, s0, delta@.notes);
        }
        assert(s3.transactions == s0.transactions);
        assert(spec_committed_ids(s3, delta@.committed) == spec_committed_ids(
            s0,
            delta@.committed,
        )) by {
            lemma_committed_ids_same(s3, s0, delta@.committed);
        }
    }
    Ok(SyncSummary { block_num: delta.block_num, updated_accounts, new_notes, committed_tx_ids })
}

/// Monotonic-merge correctness: once sync has converged with the remote
/// truth about an account — the remote record's nonce is at least the
/// locally cached one — the synced store reports exactly the remote record,
/// its nonce in particular.
pub proof fn lemma_sync_account_converges(
    old: StoreV,
    d: SyncDeltaV,
    id: AccountId,
    remote: AccountRecordV,
)
    requires
        find_first(d.accounts, by_account(id)) == Some(remote),
        spec_remote_wins(spec_account(old, id), remote),
    ensures
        spec_merge_accounts(old, d.accounts, id) == Some(remote),
        spec_merge_accounts(old, d.accounts, id)->Some_0.nonce == remote.nonce,
{
}

/// Sync is idempotent: applying a delta to a store that already reflects it
/// changes no record. `mid` is any store state that reflects `old` synced
/// with `d`; `fin` is `mid` synced with `d` again; every lookup in `fin`
/// equals the lookup in `mid`.
pub proof fn lemma_sync_idempotent(old: StoreV, mid: StoreV, fin: StoreV, d: SyncDeltaV)
    requires
        d.wf(),
        forall|id: AccountId|
            #[trigger] spec_account(mid, id) == spec_merge_accounts(old, d.accounts, id),
        forall|id: u64| #[trigger] spec_note(mid, id) == spec_synced_note(old, d, id),
        forall|id: u64| #[trigger] spec_transaction(mid, id) == spec_synced_tx(old, d, id),
        forall|id: AccountId|
            #[trigger] spec_account(fin, id) == spec_merge_accounts(mid, d.accounts, id),
        forall|id: u64| #[trigger] spec_note(fin, id) == spec_synced_note(mid, d, id),
        forall|id: u64| #[trigger] spec_transaction(fin, id) == spec_synced_tx(mid, d, id),
    ensures
        forall|id: AccountId| #[trigger] spec_account(fin, id) == spec_account(mid, id),
        forall|id: u64| #[trigger] spec_note(fin, id) == spec_note(mid, id),
        forall|id: u64| #[trigger] spec_transaction(fin, id) == spec_transaction(mid, id),
{
    assert forall|id: AccountId| #[trigger] spec_account(fin, id) == spec_account(mid, id) by {
        match find_first(d.accounts, by_account(id)) {
            Some(r) => {
                lemma_find_idx(d.accounts, by_account(id));
                if spec_remote_wins(spec_account(old, id), r) {
                    assert(spec_account(mid, id) == Some(r));
                    assert(spec_remote_wins(spec_account(mid, id), r));
                } else {
                    assert(spec_account(mid, id) == spec_account(old, id));
                }
            },
            None => {},
        }
    }
    assert forall|id: u64| #[trigger] spec_note(fin, id) == spec_note(mid, id) by {
        let base1 = spec_insert_notes(old, d.notes, id);
        match base1 {
            Some(b) => {
                assert(b.status != NoteStatus::Expected || find_first(
                    d.notes,
                    by_note(id),
                ) is None) by {
                    match spec_note(old, id) {
                        Some(l) => {
                            if l.status == NoteStatus::Expected && find_first(
                                d.notes,
                                by_note(id),
                            ) is Some {
                                assert(b == with_status(l, NoteStatus::Unconsumed));
                            }
                        },
                        None => {
                            lemma_find_idx(d.notes, by_note(id));
                            if find_first(d.notes, by_note(id)) is Some {
                                let fi = find_idx(d.notes, by_note(id));
                                assert(d.notes[fi].status == NoteStatus::Unconsumed);
                            }
                        },
                    }
                }
                assert(spec_note(mid, id) is Some);
                let base2 = spec_insert_notes(mid, d.notes, id);
                match find_first(d.consumed, by_cons(id)) {
                    Some(c) => {
                        assert(spec_note(mid, id) == Some(
                            with_status(b, NoteStatus::Consumed { by: c.1 }),
                        ));
                        assert(base2 == spec_note(mid, id));
                        assert(with_status(
                            with_status(b, NoteStatus::Consumed { by: c.1 }),
                            NoteStatus::Consumed { by: c.1 },
                        ) =~= with_status(b, NoteStatus::Consumed { by: c.1 }));
                    },
                    None => {
                        assert(spec_note(mid, id) == Some(b));
                        assert(base2 == Some(b));
                    },
                }
            },
            None => {
                assert(spec_note(mid, id) is None);
                assert(find_first(d.notes, by_note(id)) is None);
                assert(spec_insert_notes(mid, d.notes, id) is None);
            },
        }
    }
    assert forall|id: u64| #[trigger] spec_transaction(fin, id) == spec_transaction(mid, id) by {
        match spec_transaction(old, id) {
            Some(t) => {
                let t1 = spec_apply_committed(Some(t), d.committed, id)->Some_0;
                let t2 = spec_discarded_tx(t1, d.consumed);
                assert(spec_transaction(mid, id) == Some(t2));
                if t2.status == TransactionStatus::Pending {
                    assert(t1.status == TransactionStatus::Pending);
                    assert(t.status == TransactionStatus::Pending);
                    assert(find_first(d.committed, by_commit(id)) is None);
                    assert(!spec_conflicted(t1, d.consumed));
                    assert(t2 == t);
                } else {
                    assert(spec_apply_committed(Some(t2), d.committed, id) == Some(t2));
                    assert(spec_discarded_tx(t2, d.consumed) == t2);
                }
            },
            None => {
                assert(spec_transaction(mid, id) is None);
            },
        }
    }
}

} // verus!
