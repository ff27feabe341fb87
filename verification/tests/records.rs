//! Record-level behavior: digests, note identity, the store's tables, vault
//! arithmetic, the compiled-library lookup, the oracle plan and the claim
//! fixture.
use miden_client_core::account::{vault_add, vault_balance, vault_remove, AccountRecord, StorageSlot};
use miden_client_core::claim::claim_note_test_inputs;
use miden_client_core::compiler::{get_protected_procedure_digest, CompiledLibrary, ProcedureExport};
use miden_client_core::digest::{digest_words, DIGEST_SEED};
use miden_client_core::note::{note_id, tag_for_account, NoteRecipient, NoteRecord};
use miden_client_core::oracle::get_oracle_foreign_accounts;
use miden_client_core::rng::{account_id_from_seed, create_basic_account, create_basic_faucet, fresh_recipient};
use miden_client_core::store::Store;
use miden_client_core::transaction::TransactionRecord;
use miden_client_core::types::{
    AccountId, AccountVisibility, Asset, EngineError, ExecutionHint, NoteKind, NoteMetadata,
    NoteStatus, TransactionStatus, Word4,
};

fn acct(prefix: u64) -> AccountId {
    AccountId { prefix, suffix: prefix + 1 }
}

fn w4(a: u64, b: u64, c: u64, d: u64) -> Word4 {
    Word4 { e0: a, e1: b, e2: c, e3: d }
}

fn basic_record(id: AccountId) -> AccountRecord {
    AccountRecord {
        id,
        nonce: 0,
        storage: Vec::new(),
        vault: Vec::new(),
        code_commitment: w4(0, 0, 0, 0),
        updatable_code: true,
        visibility: AccountVisibility::Public,
        is_faucet: false,
        accepts_open_notes: false,
        protected_procedures: Vec::new(),
    }
}

fn simple_note(sender: AccountId, tag: u64, assets: Vec<Asset>, serial: u64, status: NoteStatus) -> NoteRecord {
    let metadata = NoteMetadata {
        sender,
        kind: NoteKind::Public,
        tag,
        hint: ExecutionHint::Always,
        aux: 0,
    };
    let recipient = NoteRecipient { serial_num: serial, script_root: w4(9, 9, 9, 9), inputs: Vec::new() };
    NoteRecord::new(assets, metadata, recipient, status)
}

#[test]
fn digest_of_empty_input_is_the_seed() {
    let ws: Vec<u64> = Vec::new();
    assert_eq!(digest_words(&ws), DIGEST_SEED);
}

#[test]
fn digest_follows_the_multiply_xor_fold() {
    // One step: (seed ^ 1) * multiplier, truncated to 64 bits.
    assert_eq!(digest_words(&vec![1u64]), 0xaf63bc4c8601b62c);
    // Two steps fold left to right.
    assert_eq!(digest_words(&vec![1u64, 2]), 0x082f2407b4e8902a);
}

#[test]
fn digest_is_deterministic_and_content_sensitive() {
    let a = vec![1u64, 2, 3];
    let b = vec![1u64, 2, 3];
    let c = vec![3u64, 2, 1];
    assert_eq!(digest_words(&a), digest_words(&b));
    assert_ne!(digest_words(&a), digest_words(&c));
}

#[test]
fn note_identity_is_a_function_of_the_contents() {
    let sender = acct(10);
    let n1 = simple_note(sender, 77, vec![Asset { faucet: acct(1), amount: 5 }], 42, NoteStatus::Unconsumed);
    let n2 = simple_note(sender, 77, vec![Asset { faucet: acct(1), amount: 5 }], 42, NoteStatus::Expected);
    // Same contents, same id, whatever the lifecycle state.
    assert_eq!(n1.id, n2.id);
    assert_eq!(n1.id, note_id(&n1.assets, &n1.metadata, &n1.recipient));
    // A different serial number distinguishes otherwise identical notes.
    let n3 = simple_note(sender, 77, vec![Asset { faucet: acct(1), amount: 5 }], 43, NoteStatus::Unconsumed);
    assert_ne!(n1.id, n3.id);
}

#[test]
fn store_reads_reflect_the_latest_upsert() {
    let mut store = Store::new();
    let id = acct(5);
    assert!(store.get_account(id).is_none());
    let mut a = basic_record(id);
    store.upsert_account(a.duplicate());
    assert_eq!(store.get_account(id).unwrap().nonce, 0);
    a.nonce = 3;
    store.upsert_account(a);
    assert_eq!(store.get_account(id).unwrap().nonce, 3);
    // Other records are untouched.
    assert!(store.get_account(acct(6)).is_none());
}

#[test]
fn store_tracks_notes_and_transactions() {
    let mut store = Store::new();
    let n = simple_note(acct(1), 7, Vec::new(), 1, NoteStatus::Unconsumed);
    let nid = n.id;
    assert!(store.get_note(nid).is_none());
    store.upsert_note(n);
    assert!(matches!(store.get_note(nid).unwrap().status, NoteStatus::Unconsumed));

    let t = TransactionRecord {
        id: 99,
        account: acct(1),
        status: TransactionStatus::Pending,
        input_notes: vec![nid],
        output_notes: Vec::new(),
    };
    store.upsert_transaction(t);
    assert!(matches!(store.get_transaction(99).unwrap().status, TransactionStatus::Pending));

    assert!(store.mark_note_consumed(nid, 99));
    assert!(matches!(store.get_note(nid).unwrap().status, NoteStatus::Consumed { by: 99 }));
    assert!(!store.mark_note_consumed(12345, 99));

    assert!(store.set_transaction_status(99, TransactionStatus::Committed { block: 4 }));
    assert_eq!(store.get_transaction(99).unwrap().commit_height(), Some(4));
}

#[test]
fn notes_filter_by_status() {
    let mut store = Store::new();
    let a = simple_note(acct(1), 7, Vec::new(), 1, NoteStatus::Unconsumed);
    let b = simple_note(acct(1), 7, Vec::new(), 2, NoteStatus::Expected);
    let c = simple_note(acct(1), 7, Vec::new(), 3, NoteStatus::Unconsumed);
    let (ida, idb, idc) = (a.id, b.id, c.id);
    store.upsert_note(a);
    store.upsert_note(b);
    store.upsert_note(c);
    let unconsumed = store.get_notes_with_status(NoteStatus::Unconsumed);
    assert_eq!(unconsumed.len(), 2);
    assert_eq!(unconsumed[0].id, ida);
    assert_eq!(unconsumed[1].id, idc);
    let expected = store.get_notes_with_status(NoteStatus::Expected);
    assert_eq!(expected.len(), 1);
    assert_eq!(expected[0].id, idb);
    assert!(store.get_notes_with_status(NoteStatus::Expired).is_empty());
}

#[test]
fn transactions_filter_by_status() {
    let mut store = Store::new();
    store.upsert_transaction(TransactionRecord {
        id: 1,
        account: acct(1),
        status: TransactionStatus::Pending,
        input_notes: Vec::new(),
        output_notes: Vec::new(),
    });
    store.upsert_transaction(TransactionRecord {
        id: 2,
        account: acct(1),
        status: TransactionStatus::Committed { block: 4 },
        input_notes: Vec::new(),
        output_notes: Vec::new(),
    });
    store.upsert_transaction(TransactionRecord {
        id: 3,
        account: acct(2),
        status: TransactionStatus::Pending,
        input_notes: Vec::new(),
        output_notes: Vec::new(),
    });
    let pending = store.get_transactions_with_status(TransactionStatus::Pending);
    assert_eq!(pending.len(), 2);
    assert_eq!(pending[0].id, 1);
    assert_eq!(pending[1].id, 3);
    let committed = store.get_transactions_with_status(TransactionStatus::Committed { block: 4 });
    assert_eq!(committed.len(), 1);
    assert_eq!(committed[0].id, 2);
    assert!(store.get_transactions_with_status(TransactionStatus::Discarded).is_empty());
}

#[test]
fn vault_arithmetic_is_checked() {
    let f = acct(1);
    let g = acct(2);
    let mut vault: Vec<Asset> = Vec::new();
    assert!(vault_add(&mut vault, Asset { faucet: f, amount: 700 }).is_ok());
    assert!(vault_add(&mut vault, Asset { faucet: g, amount: 40 }).is_ok());
    assert!(vault_add(&mut vault, Asset { faucet: f, amount: 300 }).is_ok());
    assert_eq!(vault_balance(&vault, f), 1000);
    assert_eq!(vault_balance(&vault, g), 40);

    // Overflow leaves the vault unchanged.
    assert_eq!(
        vault_add(&mut vault, Asset { faucet: f, amount: u64::MAX }),
        Err(EngineError::AssetError)
    );
    assert_eq!(vault_balance(&vault, f), 1000);

    // Underflow leaves the vault unchanged.
    assert_eq!(
        vault_remove(&mut vault, Asset { faucet: f, amount: 1001 }),
        Err(EngineError::AssetError)
    );
    assert_eq!(vault_balance(&vault, f), 1000);

    assert!(vault_remove(&mut vault, Asset { faucet: f, amount: 100 }).is_ok());
    assert_eq!(vault_balance(&vault, f), 900);
    assert_eq!(vault_balance(&vault, g), 40);

    // Removing an absent asset type fails unless the amount is zero.
    assert_eq!(
        vault_remove(&mut vault, Asset { faucet: acct(3), amount: 1 }),
        Err(EngineError::AssetError)
    );
    assert!(vault_remove(&mut vault, Asset { faucet: acct(3), amount: 0 }).is_ok());
}

#[test]
fn account_storage_reads() {
    let mut a = basic_record(acct(8));
    a.storage.push(StorageSlot::Value(w4(11, 12, 13, 14)));
    a.storage.push(StorageSlot::Mapping(vec![(w4(0, 0, 0, 1), w4(5, 0, 0, 0))]));
    assert_eq!(a.get_item(0), Some(w4(11, 12, 13, 14)));
    assert_eq!(a.get_item(1), None);
    assert_eq!(a.get_item(2), None);
    assert_eq!(a.get_map_item(1, w4(0, 0, 0, 1)), Some(w4(5, 0, 0, 0)));
    assert_eq!(a.get_map_item(1, w4(0, 0, 0, 2)), None);
    assert_eq!(a.get_map_item(0, w4(0, 0, 0, 1)), None);
}

#[test]
fn protected_procedure_digest_is_found_by_name() {
    let library = CompiledLibrary {
        exports: vec![
            ProcedureExport { name: b"$anon::increment_count".to_vec(), digest: w4(1, 1, 1, 1) },
            ProcedureExport {
                name: b"$anon::increment_count_two".to_vec(),
                digest: w4(2, 2, 2, 2),
            },
        ],
    };
    let d = get_protected_procedure_digest(&library, &b"$anon::increment_count_two".to_vec());
    assert_eq!(d, Ok(w4(2, 2, 2, 2)));
    let missing = get_protected_procedure_digest(&library, &b"$anon::reset_count".to_vec());
    assert_eq!(missing, Err(EngineError::NotFound));
}

#[test]
fn oracle_plan_lists_each_publisher_under_the_pair_key() {
    let oracle_id = acct(77);
    let mut oracle = basic_record(oracle_id);
    // Slot 0: unrelated; slot 1: the count (4 => publishers at slots 3 and 4).
    oracle.storage.push(StorageSlot::Value(w4(0, 0, 0, 0)));
    oracle.storage.push(StorageSlot::Value(w4(4, 0, 0, 0)));
    oracle.storage.push(StorageSlot::Value(w4(0, 0, 0, 0)));
    oracle.storage.push(StorageSlot::Value(w4(0, 0, 21, 20)));
    oracle.storage.push(StorageSlot::Value(w4(0, 0, 31, 30)));
    let pair = 120195681u64;
    let plan = get_oracle_foreign_accounts(&oracle, oracle_id, pair).unwrap();
    assert_eq!(plan.oracle, oracle_id);
    assert_eq!(plan.publisher_reads.len(), 2);
    assert_eq!(plan.publisher_reads[0].account, AccountId { prefix: 20, suffix: 21 });
    assert_eq!(plan.publisher_reads[1].account, AccountId { prefix: 30, suffix: 31 });
    assert_eq!(plan.publisher_reads[0].slot_index, 1);
    assert_eq!(plan.publisher_reads[0].map_key, Some(w4(0, 0, 0, pair)));

    // A missing publisher slot means the record is not synced far enough.
    let mut incomplete = basic_record(oracle_id);
    incomplete.storage.push(StorageSlot::Value(w4(0, 0, 0, 0)));
    incomplete.storage.push(StorageSlot::Value(w4(4, 0, 0, 0)));
    assert_eq!(
        get_oracle_foreign_accounts(&incomplete, oracle_id, pair).err(),
        Some(EngineError::NotFound)
    );
}

#[test]
fn claim_note_inputs_hold_the_fixed_values() {
    let (
        smt_proof_local_exit_root,
        smt_proof_rollup_exit_root,
        global_index,
        mainnet_exit_root,
        rollup_exit_root,
        origin_network,
        origin_token_address,
        destination_network,
        metadata,
    ) = claim_note_test_inputs();
    assert_eq!(smt_proof_local_exit_root.len(), 32);
    assert_eq!(smt_proof_rollup_exit_root.len(), 32);
    for i in 0..32usize {
        let local = &smt_proof_local_exit_root[i];
        assert_eq!(local[0], i as u8);
        assert!(local[1..].iter().all(|&b| b == 0));
        let rollup = &smt_proof_rollup_exit_root[i];
        assert_eq!(rollup[0], (i + 32) as u8);
        assert!(rollup[1..].iter().all(|&b| b == 0));
    }
    assert_eq!(global_index, 1);
    assert_eq!(mainnet_exit_root, [1u8; 32]);
    assert_eq!(rollup_exit_root, [2u8; 32]);
    assert_eq!(origin_network, 0);
    assert_eq!(origin_token_address, [3u8; 20]);
    assert_eq!(destination_network, 1);
    assert!(metadata.is_empty());
}

#[test]
fn fresh_accounts_enter_the_store_with_a_zero_nonce() {
    let mut store = Store::new();
    let wallet = create_basic_account(&mut store, w4(1, 2, 3, 4));
    assert_eq!(wallet.nonce, 0);
    assert!(!wallet.is_faucet);
    assert_eq!(store.get_account(wallet.id).unwrap().nonce, 0);

    let faucet = create_basic_faucet(&mut store, w4(4, 3, 2, 1), 0x4d4944, 8, 1_000_000);
    assert!(faucet.is_faucet);
    assert_eq!(faucet.get_item(0), Some(w4(1_000_000, 8, 0x4d4944, 0)));
    assert!(store.get_account(faucet.id).unwrap().is_faucet);
    // Both accounts are tracked independently.
    assert!(store.get_account(wallet.id).is_some());
}

#[test]
fn account_ids_derive_deterministically_from_seeds() {
    let seed_a = [7u8; 32];
    let seed_b = [8u8; 32];
    assert_eq!(account_id_from_seed(&seed_a), account_id_from_seed(&seed_a));
    assert_ne!(account_id_from_seed(&seed_a), account_id_from_seed(&seed_b));
}

#[test]
fn fresh_recipient_keeps_script_and_inputs() {
    let r = fresh_recipient(w4(1, 2, 3, 4), vec![10, 20]);
    assert_eq!(r.script_root, w4(1, 2, 3, 4));
    assert_eq!(r.inputs, vec![10, 20]);
}

#[test]
fn routing_tags_derive_from_the_account_prefix() {
    let id = acct(4242);
    assert_eq!(tag_for_account(id), 4242);
}
