//! The transaction pipeline: build, execute, prove, submit, wait — with the
//! transfer scenario, the routing-failure scenario and the prover-agnostic
//! dispatch exercised end to end.
use miden_client_core::account::{vault_balance, AccountRecord, StorageSlot};
use miden_client_core::builder::{build, ConsumeMode, NoteTemplate, ScriptSpec, TransactionSpec};
use miden_client_core::executor::{execute, ExecutionResult};
use miden_client_core::matcher::consumable_notes;
use miden_client_core::note::{tag_for_account, NoteRecipient};
use miden_client_core::prover::{accept_remote_proof, prove, prove_local, verify_proof, Proof, ProverDispatch, RemoteProverOutcome};
use miden_client_core::store::Store;
use miden_client_core::submit::apply_submission;
use miden_client_core::transaction::TransactionRecord;
use miden_client_core::sync::{apply_sync, SyncDelta};
use miden_client_core::types::{
    AccountId, AccountVisibility, Asset, EngineError, ExecutionHint, NoteKind, NoteMetadata,
    NoteStatus, TransactionStatus, Word4,
};
use miden_client_core::waiter::{timeout_error, wait_step, WaitDecision, WaitPolicy};

fn acct(prefix: u64) -> AccountId {
    AccountId { prefix, suffix: prefix + 1 }
}

fn w4(a: u64, b: u64, c: u64, d: u64) -> Word4 {
    Word4 { e0: a, e1: b, e2: c, e3: d }
}

fn record(id: AccountId, is_faucet: bool) -> AccountRecord {
    AccountRecord {
        id,
        nonce: 0,
        storage: Vec::new(),
        vault: Vec::new(),
        code_commitment: w4(0, 0, 0, 0),
        updatable_code: !is_faucet,
        visibility: AccountVisibility::Public,
        is_faucet,
        accepts_open_notes: false,
        protected_procedures: Vec::new(),
    }
}

fn template(sender: AccountId, target_tag: u64, assets: Vec<Asset>, serial: u64) -> NoteTemplate {
    NoteTemplate {
        assets,
        metadata: NoteMetadata {
            sender,
            kind: NoteKind::Public,
            tag: target_tag,
            hint: ExecutionHint::Always,
            aux: 0,
        },
        recipient: NoteRecipient { serial_num: serial, script_root: w4(9, 9, 9, 9), inputs: Vec::new() },
    }
}

fn no_notes_spec() -> TransactionSpec {
    TransactionSpec {
        output_notes: Vec::new(),
        input_notes: Vec::new(),
        script: None,
        foreign_reads: Vec::new(),
    }
}

/// Runs build, execute, local prove and submit for one request, syncing is
/// left to the caller. Panics on any failure, as tests want.
fn run_tx(store: &mut Store, account: AccountId, spec: &TransactionSpec, height: u32) -> ExecutionResult {
    let witness = build(store, account, spec, true).unwrap();
    let result = execute(&witness).unwrap();
    let proof = prove_local(&result);
    apply_submission(store, &proof, &result, height).unwrap();
    result
}

/// Confirms a submitted transaction on the simulated chain: its created
/// notes appear, its consumed notes are spent by it, and it commits.
fn confirm(store: &mut Store, result: &ExecutionResult, block: u32) {
    let mut delta = SyncDelta {
        block_num: block,
        block_commitment: w4(0, 0, 0, block as u64),
        accounts: Vec::new(),
        notes: Vec::new(),
        consumed: Vec::new(),
        committed: vec![(result.tx_id, block)],
    };
    for n in result.created_notes.iter() {
        let mut confirmed = n.duplicate();
        confirmed.status = NoteStatus::Unconsumed;
        delta.notes.push(confirmed);
    }
    for nid in result.consumed_notes.iter() {
        delta.consumed.push((*nid, result.tx_id));
    }
    apply_sync(store, &delta).unwrap();
}

#[test]
fn transfer_scenario_moves_exactly_the_sent_amount() {
    let mut store = Store::new();
    let faucet = acct(100);
    let alice = acct(1);
    let bob = acct(2);
    store.upsert_account(record(faucet, true));
    store.upsert_account(record(alice, false));
    store.upsert_account(record(bob, false));

    // The faucet mints 1000 to Alice: a tagged note, minted out of thin air.
    let mint_spec = TransactionSpec {
        output_notes: vec![template(faucet, tag_for_account(alice), vec![Asset { faucet, amount: 1000 }], 11)],
        input_notes: Vec::new(),
        script: None,
        foreign_reads: Vec::new(),
    };
    let mint = run_tx(&mut store, faucet, &mint_spec, 1);
    assert_eq!(vault_balance(&store.get_account(faucet).unwrap().vault, faucet), 0);
    confirm(&mut store, &mint, 1);

    // Alice consumes the minted note.
    let mint_note = mint.created_notes[0].id;
    let claim_spec = TransactionSpec {
        output_notes: Vec::new(),
        input_notes: vec![(mint_note, ConsumeMode::Authenticated)],
        script: None,
        foreign_reads: Vec::new(),
    };
    let claimed = run_tx(&mut store, alice, &claim_spec, 2);
    confirm(&mut store, &claimed, 2);
    assert_eq!(vault_balance(&store.get_account(alice).unwrap().vault, faucet), 1000);

    // Alice sends 100 to Bob.
    let send_spec = TransactionSpec {
        output_notes: vec![template(alice, tag_for_account(bob), vec![Asset { faucet, amount: 100 }], 12)],
        input_notes: Vec::new(),
        script: None,
        foreign_reads: Vec::new(),
    };
    let send = run_tx(&mut store, alice, &send_spec, 3);
    let sent_note = send.created_notes[0].id;

    // Before the transfer commits, Bob is offered nothing.
    assert!(consumable_notes(&store, bob).unwrap().is_empty());
    confirm(&mut store, &send, 3);

    // After sync, Bob is offered exactly one note of amount 100.
    let offers = consumable_notes(&store, bob).unwrap();
    assert_eq!(offers.len(), 1);
    assert_eq!(offers[0].0.id, sent_note);
    assert_eq!(offers[0].0.assets.len(), 1);
    assert_eq!(offers[0].0.assets[0].amount, 100);

    // Bob consumes it: his balance grows by exactly 100, Alice's balance is
    // unaffected by his consumption.
    let alice_before = vault_balance(&store.get_account(alice).unwrap().vault, faucet);
    let receive_spec = TransactionSpec {
        output_notes: Vec::new(),
        input_notes: vec![(sent_note, ConsumeMode::Authenticated)],
        script: None,
        foreign_reads: Vec::new(),
    };
    let received = run_tx(&mut store, bob, &receive_spec, 4);
    confirm(&mut store, &received, 4);
    assert_eq!(vault_balance(&store.get_account(bob).unwrap().vault, faucet), 100);
    assert_eq!(vault_balance(&store.get_account(alice).unwrap().vault, faucet), alice_before);
    assert_eq!(alice_before, 900);
    assert!(consumable_notes(&store, bob).unwrap().is_empty());
}

#[test]
fn consuming_a_foreign_routed_note_fails_and_leaves_it_unconsumed() {
    let mut store = Store::new();
    let alice = acct(1);
    let eve = acct(66);
    store.upsert_account(record(alice, false));
    store.upsert_account(record(eve, false));

    // A private note routed to Alice, synced from chain.
    let mut delta = SyncDelta {
        block_num: 1,
        block_commitment: w4(0, 0, 0, 1),
        accounts: Vec::new(),
        notes: Vec::new(),
        consumed: Vec::new(),
        committed: Vec::new(),
    };
    let note = miden_client_core::note::NoteRecord::new(
        vec![Asset { faucet: acct(100), amount: 5 }],
        NoteMetadata {
            sender: alice,
            kind: NoteKind::Private,
            tag: tag_for_account(alice),
            hint: ExecutionHint::Always,
            aux: 0,
        },
        NoteRecipient { serial_num: 3, script_root: w4(9, 9, 9, 9), inputs: Vec::new() },
        NoteStatus::Unconsumed,
    );
    let nid = note.id;
    delta.notes.push(note);
    apply_sync(&mut store, &delta).unwrap();

    // Eve tries to consume it: the routing tag does not match her account.
    let steal_spec = TransactionSpec {
        output_notes: Vec::new(),
        input_notes: vec![(nid, ConsumeMode::Unauthenticated)],
        script: None,
        foreign_reads: Vec::new(),
    };
    let witness = build(&store, eve, &steal_spec, true).unwrap();
    assert_eq!(execute(&witness).err(), Some(EngineError::ScriptFailure));
    // The note is still unconsumed in the store.
    assert_eq!(store.get_note(nid).unwrap().status, NoteStatus::Unconsumed);
}

#[test]
fn protected_procedures_require_authorization() {
    let mut store = Store::new();
    let owner = acct(1);
    let protected = w4(5, 5, 5, 5);
    let mut contract = record(owner, false);
    contract.storage.push(StorageSlot::Value(w4(0, 0, 0, 0)));
    contract.protected_procedures.push(protected);
    store.upsert_account(contract);

    // Calling the unprotected procedure works without authorization.
    let open_call = TransactionSpec {
        output_notes: Vec::new(),
        input_notes: Vec::new(),
        script: Some(ScriptSpec {
            root: w4(8, 8, 8, 8),
            args: Vec::new(),
            calls: vec![w4(4, 4, 4, 4)],
            storage_writes: vec![(0, w4(0, 0, 0, 1))],
        }),
        foreign_reads: Vec::new(),
    };
    let witness = build(&store, owner, &open_call, false).unwrap();
    let result = execute(&witness).unwrap();
    assert_eq!(result.account_after.get_item(0), Some(w4(0, 0, 0, 1)));

    // Calling the protected procedure without authorization is rejected.
    let protected_call = TransactionSpec {
        output_notes: Vec::new(),
        input_notes: Vec::new(),
        script: Some(ScriptSpec {
            root: w4(8, 8, 8, 8),
            args: Vec::new(),
            calls: vec![protected],
            storage_writes: Vec::new(),
        }),
        foreign_reads: Vec::new(),
    };
    let unauthorized = build(&store, owner, &protected_call, false).unwrap();
    assert_eq!(execute(&unauthorized).err(), Some(EngineError::ScriptFailure));
    // With authorization it passes.
    let authorized = build(&store, owner, &protected_call, true).unwrap();
    assert!(execute(&authorized).is_ok());
}

#[test]
fn building_against_missing_state_is_a_lookup_miss() {
    let mut store = Store::new();
    store.upsert_account(record(acct(1), false));
    assert!(matches!(
        build(&store, acct(9), &no_notes_spec(), true),
        Err(EngineError::NotFound)
    ));
    let spec = TransactionSpec {
        output_notes: Vec::new(),
        input_notes: vec![(12345, ConsumeMode::Authenticated)],
        script: None,
        foreign_reads: Vec::new(),
    };
    assert!(matches!(build(&store, acct(1), &spec, true), Err(EngineError::NotFound)));
}

#[test]
fn authenticated_consumption_needs_a_synced_note() {
    let mut store = Store::new();
    let a = acct(1);
    store.upsert_account(record(a, false));
    let note = miden_client_core::note::NoteRecord::new(
        Vec::new(),
        NoteMetadata {
            sender: a,
            kind: NoteKind::Public,
            tag: tag_for_account(a),
            hint: ExecutionHint::Always,
            aux: 0,
        },
        NoteRecipient { serial_num: 4, script_root: w4(9, 9, 9, 9), inputs: Vec::new() },
        NoteStatus::Expected,
    );
    let nid = note.id;
    store.upsert_note(note);
    // Authenticated consumption of a merely expected note is rejected...
    let auth_spec = TransactionSpec {
        output_notes: Vec::new(),
        input_notes: vec![(nid, ConsumeMode::Authenticated)],
        script: None,
        foreign_reads: Vec::new(),
    };
    assert!(matches!(build(&store, a, &auth_spec, true), Err(EngineError::ScriptFailure)));
    // ...while unauthenticated consumption speculatively trusts the local view.
    let unauth_spec = TransactionSpec {
        output_notes: Vec::new(),
        input_notes: vec![(nid, ConsumeMode::Unauthenticated)],
        script: None,
        foreign_reads: Vec::new(),
    };
    assert!(build(&store, a, &unauth_spec, true).is_ok());
}

#[test]
fn consuming_the_same_note_twice_is_rejected() {
    let mut store = Store::new();
    let a = acct(1);
    store.upsert_account(record(a, false));
    let note = miden_client_core::note::NoteRecord::new(
        Vec::new(),
        NoteMetadata {
            sender: a,
            kind: NoteKind::Public,
            tag: tag_for_account(a),
            hint: ExecutionHint::Always,
            aux: 0,
        },
        NoteRecipient { serial_num: 8, script_root: w4(9, 9, 9, 9), inputs: Vec::new() },
        NoteStatus::Unconsumed,
    );
    let nid = note.id;
    store.upsert_note(note);
    let spec = TransactionSpec {
        output_notes: Vec::new(),
        input_notes: vec![(nid, ConsumeMode::Authenticated), (nid, ConsumeMode::Authenticated)],
        script: None,
        foreign_reads: Vec::new(),
    };
    assert!(matches!(build(&store, a, &spec, true), Err(EngineError::ScriptFailure)));
}

#[test]
fn creating_the_same_note_twice_is_rejected() {
    let mut store = Store::new();
    let faucet = acct(100);
    store.upsert_account(record(faucet, true));
    // Two identical templates build to one id: a note is created once.
    let spec = TransactionSpec {
        output_notes: vec![
            template(faucet, 7, vec![Asset { faucet, amount: 10 }], 5),
            template(faucet, 7, vec![Asset { faucet, amount: 10 }], 5),
        ],
        input_notes: Vec::new(),
        script: None,
        foreign_reads: Vec::new(),
    };
    assert!(matches!(build(&store, faucet, &spec, true), Err(EngineError::ScriptFailure)));
    // Distinct serial numbers make distinct notes, and the request builds.
    let ok_spec = TransactionSpec {
        output_notes: vec![
            template(faucet, 7, vec![Asset { faucet, amount: 10 }], 5),
            template(faucet, 7, vec![Asset { faucet, amount: 10 }], 6),
        ],
        input_notes: Vec::new(),
        script: None,
        foreign_reads: Vec::new(),
    };
    assert!(build(&store, faucet, &ok_spec, true).is_ok());
}

#[test]
fn recreating_a_consumed_note_is_rejected() {
    let mut store = Store::new();
    let a = acct(1);
    store.upsert_account(record(a, false));
    // A note in the store, and an output template with identical contents:
    // consuming it and recreating it in one transaction is refused.
    let t = template(a, tag_for_account(a), Vec::new(), 9);
    let note = miden_client_core::note::NoteRecord::new(
        Vec::new(),
        t.metadata,
        NoteRecipient { serial_num: 9, script_root: w4(9, 9, 9, 9), inputs: Vec::new() },
        NoteStatus::Unconsumed,
    );
    let nid = note.id;
    store.upsert_note(note);
    let spec = TransactionSpec {
        output_notes: vec![t],
        input_notes: vec![(nid, ConsumeMode::Authenticated)],
        script: None,
        foreign_reads: Vec::new(),
    };
    assert!(matches!(build(&store, a, &spec, true), Err(EngineError::ScriptFailure)));
}

#[test]
fn overspending_is_an_asset_error() {
    let mut store = Store::new();
    let faucet = acct(100);
    let a = acct(1);
    let mut poor = record(a, false);
    poor.vault.push(Asset { faucet, amount: 50 });
    store.upsert_account(poor);
    let spec = TransactionSpec {
        output_notes: vec![template(a, 7, vec![Asset { faucet, amount: 51 }], 5)],
        input_notes: Vec::new(),
        script: None,
        foreign_reads: Vec::new(),
    };
    let witness = build(&store, a, &spec, true).unwrap();
    assert_eq!(execute(&witness).err(), Some(EngineError::AssetError));
}

#[test]
fn execute_after_build_is_deterministic() {
    let mut store = Store::new();
    let faucet = acct(100);
    store.upsert_account(record(faucet, true));
    let spec = TransactionSpec {
        output_notes: vec![template(faucet, 7, vec![Asset { faucet, amount: 10 }], 5)],
        input_notes: Vec::new(),
        script: None,
        foreign_reads: Vec::new(),
    };
    let r1 = execute(&build(&store, faucet, &spec, true).unwrap()).unwrap();
    let r2 = execute(&build(&store, faucet, &spec, true).unwrap()).unwrap();
    assert_eq!(r1.tx_id, r2.tx_id);
    assert_eq!(r1.old_nonce, r2.old_nonce);
    assert_eq!(r1.account_after.nonce, r2.account_after.nonce);
    assert_eq!(r1.created_notes.len(), r2.created_notes.len());
    assert_eq!(r1.created_notes[0].id, r2.created_notes[0].id);
    assert_eq!(r1.consumed_notes, r2.consumed_notes);
    assert_eq!(
        vault_balance(&r1.account_after.vault, faucet),
        vault_balance(&r2.account_after.vault, faucet)
    );
}

#[test]
fn proofs_round_trip_through_verification() {
    let mut store = Store::new();
    let faucet = acct(100);
    store.upsert_account(record(faucet, true));
    let spec = TransactionSpec {
        output_notes: vec![template(faucet, 7, vec![Asset { faucet, amount: 10 }], 5)],
        input_notes: Vec::new(),
        script: None,
        foreign_reads: Vec::new(),
    };
    let result = execute(&build(&store, faucet, &spec, true).unwrap()).unwrap();
    let proof = prove_local(&result);
    assert!(verify_proof(&proof, &result));
    let forged = Proof { tx_id: proof.tx_id + 1, witness_commitment: proof.witness_commitment };
    assert!(!verify_proof(&forged, &result));
}

#[test]
fn remote_and_local_proofs_are_interchangeable_at_submission() {
    let mut store = Store::new();
    let faucet = acct(100);
    store.upsert_account(record(faucet, true));
    let spec = TransactionSpec {
        output_notes: vec![template(faucet, 7, vec![Asset { faucet, amount: 10 }], 5)],
        input_notes: Vec::new(),
        script: None,
        foreign_reads: Vec::new(),
    };
    let result = execute(&build(&store, faucet, &spec, true).unwrap()).unwrap();

    let local = prove(&result, ProverDispatch::Local).unwrap();
    let remote = prove(
        &result,
        ProverDispatch::Remote {
            outcome: RemoteProverOutcome::Proof {
                tx_id: result.tx_id,
                witness_commitment: local.witness_commitment,
            },
        },
    )
    .unwrap();

    // Identical execution result, either prover: both submissions succeed.
    let mut store_local = Store::new();
    store_local.upsert_account(record(faucet, true));
    let mut store_remote = Store::new();
    store_remote.upsert_account(record(faucet, true));
    assert_eq!(apply_submission(&mut store_local, &local, &result, 5), Ok(5));
    assert_eq!(apply_submission(&mut store_remote, &remote, &result, 5), Ok(5));
    assert_eq!(
        store_local.get_account(faucet).unwrap().nonce,
        store_remote.get_account(faucet).unwrap().nonce
    );
}

#[test]
fn remote_prover_failures_classify_for_retry_or_not() {
    let mut store = Store::new();
    let faucet = acct(100);
    store.upsert_account(record(faucet, true));
    let result = execute(&build(&store, faucet, &no_notes_spec(), true).unwrap()).unwrap();
    assert_eq!(
        accept_remote_proof(&result, RemoteProverOutcome::Unavailable).err(),
        Some(EngineError::ProverUnavailable)
    );
    assert_eq!(
        accept_remote_proof(&result, RemoteProverOutcome::Rejected).err(),
        Some(EngineError::ProofRejected)
    );
    // A proof for a different witness is rejected, not retried.
    assert_eq!(
        accept_remote_proof(
            &result,
            RemoteProverOutcome::Proof { tx_id: result.tx_id + 1, witness_commitment: 0 }
        )
        .err(),
        Some(EngineError::ProofRejected)
    );
}

#[test]
fn submission_rejects_a_stale_witness() {
    let mut store = Store::new();
    let faucet = acct(100);
    store.upsert_account(record(faucet, true));
    let result = execute(&build(&store, faucet, &no_notes_spec(), true).unwrap()).unwrap();
    let proof = prove_local(&result);
    assert_eq!(apply_submission(&mut store, &proof, &result, 5), Ok(5));
    // The nonce moved; resubmitting the same witness is rejected and the
    // store stays as it was.
    let nonce = store.get_account(faucet).unwrap().nonce;
    assert_eq!(
        apply_submission(&mut store, &proof, &result, 6).err(),
        Some(EngineError::ProofRejected)
    );
    assert_eq!(store.get_account(faucet).unwrap().nonce, nonce);
}

#[test]
fn submission_rejects_a_mismatched_proof_untouched() {
    let mut store = Store::new();
    let faucet = acct(100);
    store.upsert_account(record(faucet, true));
    let result = execute(&build(&store, faucet, &no_notes_spec(), true).unwrap()).unwrap();
    let good = prove_local(&result);
    let forged = Proof { tx_id: good.tx_id ^ 1, witness_commitment: good.witness_commitment };
    assert_eq!(
        apply_submission(&mut store, &forged, &result, 5).err(),
        Some(EngineError::ProofRejected)
    );
    // Nothing was applied.
    assert_eq!(store.get_account(faucet).unwrap().nonce, 0);
    assert!(store.get_transaction(result.tx_id).is_none());
}

#[test]
fn submission_misses_an_untracked_consumed_note() {
    let mut store = Store::new();
    let a = acct(1);
    store.upsert_account(record(a, false));
    // Build against a store that tracks the note, then lose it: the result
    // now names a note this (fresh) store never saw.
    let mut donor = Store::new();
    donor.upsert_account(record(a, false));
    let note = miden_client_core::note::NoteRecord::new(
        Vec::new(),
        NoteMetadata {
            sender: a,
            kind: NoteKind::Public,
            tag: tag_for_account(a),
            hint: ExecutionHint::Always,
            aux: 0,
        },
        NoteRecipient { serial_num: 21, script_root: w4(9, 9, 9, 9), inputs: Vec::new() },
        NoteStatus::Unconsumed,
    );
    let nid = note.id;
    donor.upsert_note(note);
    let spec = TransactionSpec {
        output_notes: Vec::new(),
        input_notes: vec![(nid, ConsumeMode::Authenticated)],
        script: None,
        foreign_reads: Vec::new(),
    };
    let result = execute(&build(&donor, a, &spec, true).unwrap()).unwrap();
    let proof = prove_local(&result);
    assert_eq!(
        apply_submission(&mut store, &proof, &result, 5).err(),
        Some(EngineError::NotFound)
    );
    assert_eq!(store.get_account(a).unwrap().nonce, 0);
}

#[test]
fn submission_records_the_pending_transaction() {
    let mut store = Store::new();
    let faucet = acct(100);
    store.upsert_account(record(faucet, true));
    let spec = TransactionSpec {
        output_notes: vec![template(faucet, 7, vec![Asset { faucet, amount: 10 }], 5)],
        input_notes: Vec::new(),
        script: None,
        foreign_reads: Vec::new(),
    };
    let result = execute(&build(&store, faucet, &spec, true).unwrap()).unwrap();
    let proof = prove_local(&result);
    apply_submission(&mut store, &proof, &result, 9).unwrap();
    let tx = store.get_transaction(result.tx_id).unwrap();
    assert_eq!(tx.status, TransactionStatus::Pending);
    assert_eq!(tx.account, faucet);
    assert_eq!(tx.output_notes, vec![result.created_notes[0].id]);
    // The created note is tracked, but only expected until sync confirms it.
    assert_eq!(
        store.get_note(result.created_notes[0].id).unwrap().status,
        NoteStatus::Expected
    );
    assert_eq!(store.get_account(faucet).unwrap().nonce, 1);
}

#[test]
fn waiter_walks_the_policy_to_a_decision() {
    let mut store = Store::new();
    let policy = WaitPolicy { remaining_attempts: 2, poll_interval_ms: 500 };
    // Nothing known yet: poll, with backoff and one attempt spent.
    match wait_step(&store, 42, policy, false) {
        WaitDecision::Poll { delay_ms, next } => {
            assert_eq!(delay_ms, 500);
            assert_eq!(next.remaining_attempts, 1);
            assert_eq!(next.poll_interval_ms, 1000);
        },
        other => panic!("expected a poll decision, got {:?}", other),
    }
    // Attempts exhausted: advisory timeout.
    let spent = WaitPolicy { remaining_attempts: 0, poll_interval_ms: 500 };
    assert_eq!(wait_step(&store, 42, spent, false), WaitDecision::TimedOut);
    assert_eq!(timeout_error(), EngineError::CommitmentTimeout);
    // Cancellation is honored between polls.
    assert_eq!(wait_step(&store, 42, policy, true), WaitDecision::Cancelled);
    // A committed transaction ends the wait.
    store.upsert_transaction(TransactionRecord {
        id: 42,
        account: acct(1),
        status: TransactionStatus::Committed { block: 12 },
        input_notes: Vec::new(),
        output_notes: Vec::new(),
    });
    assert_eq!(wait_step(&store, 42, policy, false), WaitDecision::Committed { block: 12 });
    // A discarded one does too, unsuccessfully.
    store.set_transaction_status(42, TransactionStatus::Discarded);
    assert_eq!(wait_step(&store, 42, policy, false), WaitDecision::Discarded);
}
