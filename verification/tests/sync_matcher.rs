//! Sync reconciliation and note matching: the monotonic merge, idempotent
//! re-sync, commitment and discard transitions, and the matcher's rules.
use miden_client_core::account::AccountRecord;
use miden_client_core::matcher::{consumable_notes, NoteRelevance};
use miden_client_core::note::{tag_for_account, NoteRecipient, NoteRecord};
use miden_client_core::store::Store;
use miden_client_core::sync::{apply_sync, SyncDelta};
use miden_client_core::transaction::TransactionRecord;
use miden_client_core::types::{
    AccountId, AccountVisibility, Asset, EngineError, ExecutionHint, NoteKind, NoteMetadata,
    NoteStatus, SyncCheckpoint, TransactionStatus, Word4,
};

fn acct(prefix: u64) -> AccountId {
    AccountId { prefix, suffix: prefix + 1 }
}

fn w4(a: u64, b: u64, c: u64, d: u64) -> Word4 {
    Word4 { e0: a, e1: b, e2: c, e3: d }
}

fn record(id: AccountId, nonce: u64) -> AccountRecord {
    AccountRecord {
        id,
        nonce,
        storage: Vec::new(),
        vault: Vec::new(),
        code_commitment: w4(0, 0, 0, 0),
        updatable_code: true,
        visibility: AccountVisibility::Public,
        is_faucet: false,
        accepts_open_notes: false,
        protected_procedures: Vec::new(),
    }
}

fn note_with(sender: AccountId, tag: u64, serial: u64, hint: ExecutionHint, kind: NoteKind, status: NoteStatus) -> NoteRecord {
    let metadata = NoteMetadata { sender, kind, tag, hint, aux: 0 };
    let recipient = NoteRecipient { serial_num: serial, script_root: w4(9, 9, 9, 9), inputs: Vec::new() };
    NoteRecord::new(Vec::new(), metadata, recipient, status)
}

fn empty_delta(block: u32) -> SyncDelta {
    SyncDelta {
        block_num: block,
        block_commitment: w4(0, 0, 0, block as u64),
        accounts: Vec::new(),
        notes: Vec::new(),
        consumed: Vec::new(),
        committed: Vec::new(),
    }
}

#[test]
fn sync_applies_the_monotonic_merge() {
    let mut store = Store::new();
    let a = acct(1);
    let b = acct(2);
    store.upsert_account(record(a, 5));
    // A stale remote record is silently ignored; a fresh one overwrites; an
    // unknown account is adopted.
    let mut delta = empty_delta(3);
    delta.accounts.push(record(a, 3));
    delta.accounts.push(record(b, 9));
    let summary = apply_sync(&mut store, &delta).unwrap();
    assert_eq!(summary.block_num, 3);
    assert_eq!(store.get_account(a).unwrap().nonce, 5);
    assert_eq!(store.get_account(b).unwrap().nonce, 9);
    assert_eq!(summary.updated_accounts, vec![b]);

    // Once the remote truth catches up, the local record equals it.
    let mut delta2 = empty_delta(4);
    delta2.accounts.push(record(a, 6));
    apply_sync(&mut store, &delta2).unwrap();
    assert_eq!(store.get_account(a).unwrap().nonce, 6);
}

#[test]
fn sync_rejects_a_stale_delta_without_touching_the_store() {
    let mut store = Store::new();
    store.set_checkpoint(SyncCheckpoint { block_num: 10, block_commitment: w4(0, 0, 0, 0) });
    store.upsert_account(record(acct(1), 5));
    let mut delta = empty_delta(9);
    delta.accounts.push(record(acct(1), 50));
    assert_eq!(apply_sync(&mut store, &delta).err(), Some(EngineError::SyncError));
    assert_eq!(store.get_account(acct(1)).unwrap().nonce, 5);
    assert_eq!(store.checkpoint.block_num, 10);
}

#[test]
fn sync_twice_with_no_new_data_is_a_no_op() {
    let mut store = Store::new();
    let a = acct(1);
    store.upsert_account(record(a, 2));
    let n = note_with(a, 7, 1, ExecutionHint::Always, NoteKind::Public, NoteStatus::Unconsumed);
    let nid = n.id;
    store.upsert_transaction(TransactionRecord {
        id: 50,
        account: a,
        status: TransactionStatus::Pending,
        input_notes: Vec::new(),
        output_notes: vec![nid],
    });
    let mut delta = empty_delta(6);
    delta.accounts.push(record(a, 4));
    delta.notes.push(n);
    delta.committed.push((50, 6));

    apply_sync(&mut store, &delta).unwrap();
    let nonce1 = store.get_account(a).unwrap().nonce;
    let status1 = store.get_note(nid).unwrap().status;
    let tx1 = store.get_transaction(50).unwrap().status;

    apply_sync(&mut store, &delta).unwrap();
    assert_eq!(store.get_account(a).unwrap().nonce, nonce1);
    assert_eq!(store.get_note(nid).unwrap().status, status1);
    assert_eq!(store.get_transaction(50).unwrap().status, tx1);
    assert_eq!(nonce1, 4);
    assert_eq!(status1, NoteStatus::Unconsumed);
    assert_eq!(tx1, TransactionStatus::Committed { block: 6 });
}

#[test]
fn sync_confirms_an_expected_note() {
    let mut store = Store::new();
    let a = acct(1);
    let expected = note_with(a, 7, 3, ExecutionHint::Always, NoteKind::Public, NoteStatus::Expected);
    let nid = expected.id;
    store.upsert_note(expected);
    let mut delta = empty_delta(2);
    delta.notes.push(note_with(a, 7, 3, ExecutionHint::Always, NoteKind::Public, NoteStatus::Unconsumed));
    let summary = apply_sync(&mut store, &delta).unwrap();
    assert_eq!(store.get_note(nid).unwrap().status, NoteStatus::Unconsumed);
    // The note was already tracked, so it is not reported as new.
    assert!(summary.new_notes.is_empty());
}

#[test]
fn sync_marks_consumption_and_discards_the_conflicting_pending_transaction() {
    let mut store = Store::new();
    let a = acct(1);
    let n = note_with(a, 7, 1, ExecutionHint::Always, NoteKind::Public, NoteStatus::Unconsumed);
    let nid = n.id;
    store.upsert_note(n);
    // Our own pending transaction also wanted to consume the note.
    store.upsert_transaction(TransactionRecord {
        id: 111,
        account: a,
        status: TransactionStatus::Pending,
        input_notes: vec![nid],
        output_notes: Vec::new(),
    });
    // The chain committed a different transaction consuming it.
    let mut delta = empty_delta(8);
    delta.consumed.push((nid, 222));
    apply_sync(&mut store, &delta).unwrap();
    assert_eq!(store.get_note(nid).unwrap().status, NoteStatus::Consumed { by: 222 });
    assert_eq!(store.get_transaction(111).unwrap().status, TransactionStatus::Discarded);
}

#[test]
fn sync_commits_a_pending_transaction_at_its_height() {
    let mut store = Store::new();
    store.upsert_transaction(TransactionRecord {
        id: 7,
        account: acct(1),
        status: TransactionStatus::Pending,
        input_notes: Vec::new(),
        output_notes: Vec::new(),
    });
    let mut delta = empty_delta(12);
    delta.committed.push((7, 12));
    let summary = apply_sync(&mut store, &delta).unwrap();
    assert_eq!(store.get_transaction(7).unwrap().status, TransactionStatus::Committed { block: 12 });
    assert_eq!(summary.committed_tx_ids, vec![7]);
    assert_eq!(store.checkpoint.block_num, 12);
}

#[test]
fn matcher_offers_unconsumed_routed_notes_only() {
    let mut store = Store::new();
    let a = acct(1);
    let other = acct(2);
    store.upsert_account(record(a, 0));
    let tag_a = tag_for_account(a);
    let tag_other = tag_for_account(other);
    let routed = note_with(a, tag_a, 1, ExecutionHint::Always, NoteKind::Public, NoteStatus::Unconsumed);
    let routed_id = routed.id;
    let foreign = note_with(a, tag_other, 2, ExecutionHint::Always, NoteKind::Private, NoteStatus::Unconsumed);
    let consumed = note_with(a, tag_a, 3, ExecutionHint::Always, NoteKind::Public, NoteStatus::Consumed { by: 5 });
    let pending = note_with(a, tag_a, 4, ExecutionHint::Always, NoteKind::Public, NoteStatus::Expected);
    store.upsert_note(routed);
    store.upsert_note(foreign);
    store.upsert_note(consumed);
    store.upsert_note(pending);

    let offers = consumable_notes(&store, a).unwrap();
    assert_eq!(offers.len(), 1);
    assert_eq!(offers[0].0.id, routed_id);
    assert_eq!(offers[0].1, NoteRelevance::Now);

    // Unknown accounts are a lookup miss, not a failure.
    assert_eq!(consumable_notes(&store, acct(9)).err(), Some(EngineError::NotFound));
}

#[test]
fn matcher_accepts_open_public_notes_when_the_account_does() {
    let mut store = Store::new();
    let a = acct(1);
    let mut open_account = record(a, 0);
    open_account.accepts_open_notes = true;
    store.upsert_account(open_account);
    let b = acct(2);
    store.upsert_account(record(b, 0));
    // Tagged for nobody in particular.
    let open_note = note_with(b, 424242, 1, ExecutionHint::Always, NoteKind::Public, NoteStatus::Unconsumed);
    let private_note = note_with(b, 424242, 2, ExecutionHint::Always, NoteKind::Private, NoteStatus::Unconsumed);
    store.upsert_note(open_note);
    store.upsert_note(private_note);

    // The open account takes the public note, never the private one.
    let offers = consumable_notes(&store, a).unwrap();
    assert_eq!(offers.len(), 1);
    // An account that does not accept open notes gets nothing.
    let offers_b = consumable_notes(&store, b).unwrap();
    assert!(offers_b.is_empty());
}

#[test]
fn matcher_reports_relevance_from_the_execution_hint() {
    let mut store = Store::new();
    let a = acct(1);
    store.upsert_account(record(a, 0));
    let tag_a = tag_for_account(a);
    let later = note_with(a, tag_a, 1, ExecutionHint::AfterBlock { height: 100 }, NoteKind::Public, NoteStatus::Unconsumed);
    let lid = later.id;
    store.upsert_note(later);

    let offers = consumable_notes(&store, a).unwrap();
    assert_eq!(offers[0].0.id, lid);
    assert_eq!(offers[0].1, NoteRelevance::After { block: 100 });

    store.set_checkpoint(SyncCheckpoint { block_num: 150, block_commitment: w4(0, 0, 0, 0) });
    let offers_later = consumable_notes(&store, a).unwrap();
    assert_eq!(offers_later[0].1, NoteRelevance::Now);
}

#[test]
fn a_consumed_note_is_offered_to_no_account() {
    let mut store = Store::new();
    let a = acct(1);
    let b = acct(2);
    let mut open_account = record(b, 0);
    open_account.accepts_open_notes = true;
    store.upsert_account(record(a, 0));
    store.upsert_account(open_account);
    let n = note_with(a, tag_for_account(a), 1, ExecutionHint::Always, NoteKind::Public, NoteStatus::Unconsumed);
    let nid = n.id;
    store.upsert_note(n);
    assert_eq!(consumable_notes(&store, a).unwrap().len(), 1);

    // The chain reports the note consumed by some transaction.
    let mut delta = empty_delta(3);
    delta.consumed.push((nid, 777));
    apply_sync(&mut store, &delta).unwrap();

    // No account is offered the note afterwards, the routing target included.
    assert!(consumable_notes(&store, a).unwrap().is_empty());
    assert!(consumable_notes(&store, b).unwrap().is_empty());
}

#[test]
fn matcher_is_stable_for_a_store_snapshot() {
    let mut store = Store::new();
    let a = acct(1);
    store.upsert_account(record(a, 0));
    let tag_a = tag_for_account(a);
    store.upsert_note(note_with(a, tag_a, 1, ExecutionHint::Always, NoteKind::Public, NoteStatus::Unconsumed));
    store.upsert_note(note_with(a, tag_a, 2, ExecutionHint::Always, NoteKind::Public, NoteStatus::Unconsumed));
    let first = consumable_notes(&store, a).unwrap();
    let second = consumable_notes(&store, a).unwrap();
    assert_eq!(first.len(), second.len());
    for k in 0..first.len() {
        assert_eq!(first[k].0.id, second[k].0.id);
        assert_eq!(first[k].1, second[k].1);
    }
}
