//! The submission pipeline: applying a proven transaction to the store
//! speculatively, before the chain confirms it.
//!
//! Sending the proven transaction over the wire happens outside the engine;
//! once the network has accepted it at some height, [`apply_submission`]
//! records the transaction as `Pending`, applies the tentative account
//! delta, marks the consumed notes and inserts the created notes as
//! expected. The next sync reconciles: it either commits the transaction or
//! discards it.
use vstd::prelude::*;
use crate::account::vault_wf;
use crate::builder::{build_ok, spec_buildable, TransactionSpecV, TransactionWitnessV};
use crate::executor::{spec_execute, ExecutionResult, ExecutionResultV, note_ids};
use crate::prover::{Proof, spec_proof_matches, verify_proof};
use crate::seq_find::{lemma_find_idx, unique_by};
use crate::store::{Store, StoreV, by_note, note_key, spec_account, spec_note, spec_transaction,
    with_status};
use crate::transaction::{TransactionRecord, TransactionRecordV};
use crate::types::{EngineError, NoteStatus, TransactionStatus, copy_vec};

verus! {

/// A well-formed execution result: the post-state belongs to the executing
/// account, each consumed and created note is named once, and no note is
/// both created and consumed. Executing a witness the builder produced
/// yields such results: see [`lemma_built_execution_result_wf`].
pub open spec fn result_wf(r: ExecutionResultV) -> bool {
    &&& r.account_after.id == r.account_id
    &&& unique_by(r.consumed_notes, |x: u64| x)
    &&& unique_by(r.created_notes, note_key())
    &&& forall|k: int|
        0 <= k < r.created_notes.len() ==> !r.consumed_notes.contains(
            (#[trigger] r.created_notes[k]).id,
        )
}

/// An execution result reached through the pipeline — a witness built
/// against a snapshot, then executed — is well-formed: the builder rejects
/// repeated and overlapping note ids, and execution carries the ids through
/// unchanged, so `apply_submission`'s well-formedness precondition holds.
pub proof fn lemma_built_execution_result_wf(
    s: StoreV,
    account_id: crate::types::AccountId,
    spec: TransactionSpecV,
    authorized: bool,
    w: TransactionWitnessV,
    res: ExecutionResultV,
)
    requires
        spec_buildable(s, account_id, spec),
        build_ok(s, account_id, spec, authorized, w),
        spec_execute(w) == Ok::<ExecutionResultV, EngineError>(res),
    ensures
        result_wf(res),
{
    // The result's fields, from the executor's functional spec.
    assert(res.account_id == w.account.id);
    assert(res.account_after.id == w.account.id);
    assert(res.consumed_notes == note_ids(w.input_notes));
    assert(res.created_notes == w.output_notes);
    // Each resolved input note carries the id it was looked up under.
    assert forall|k: int|
        0 <= k < spec.input_notes.len() implies #[trigger] w.input_notes[k].id
        == spec.input_notes[k].0 by {
        lemma_find_idx(s.notes, by_note(spec.input_notes[k].0));
        let fi = crate::seq_find::find_idx(s.notes, by_note(spec.input_notes[k].0));
        assert(Some(w.input_notes[k]) == spec_note(s, spec.input_notes[k].0));
        assert(fi >= 0);
        assert(by_note(spec.input_notes[k].0)(s.notes[fi]));
    }
    // Consumed ids are the request's input ids, unique by buildability.
    assert forall|a: int, b: int|
        0 <= a < b < res.consumed_notes.len() implies #[trigger] res.consumed_notes[a]
        != #[trigger] res.consumed_notes[b] by {
        assert(res.consumed_notes[a] == w.input_notes[a].id);
        assert(res.consumed_notes[b] == w.input_notes[b].id);
        assert(crate::builder::input_key()(spec.input_notes[a]) != crate::builder::input_key()(
            spec.input_notes[b],
        ));
    }
    // Created ids are the built templates' ids, unique by buildability.
    assert forall|a: int, b: int|
        0 <= a < b < res.created_notes.len() implies (#[trigger] res.created_notes[a]).id
        != (#[trigger] res.created_notes[b]).id by {
        assert(res.created_notes[a] == crate::builder::spec_built_note(spec.output_notes[a]));
        assert(res.created_notes[b] == crate::builder::spec_built_note(spec.output_notes[b]));
    }
    // No note is both created and consumed, by buildability.
    assert forall|k: int|
        0 <= k < res.created_notes.len() implies !res.consumed_notes.contains(
        (#[trigger] res.created_notes[k]).id,
    ) by {
        if res.consumed_notes.contains(res.created_notes[k].id) {
            let b = choose|b: int|
                0 <= b < res.consumed_notes.len() && res.consumed_notes[b]
                    == res.created_notes[k].id;
            assert(res.consumed_notes[b] == w.input_notes[b].id);
            assert(res.created_notes[k] == crate::builder::spec_built_note(spec.output_notes[k]));
            assert(crate::builder::spec_built_note(spec.output_notes[k]).id
                != spec.input_notes[b].0);
            assert(false);
        }
    }
    assert(result_wf(res));
}

/// When a proven transaction can be applied to this snapshot: the proof
/// binds exactly this result, the account still stands at the nonce the
/// witness consumed, and every consumed note is tracked.
pub open spec fn spec_submittable(s: StoreV, p: Proof, r: ExecutionResultV) -> bool {
    &&& spec_proof_matches(p, r)
    &&& spec_account(s, r.account_id) is Some
    &&& spec_account(s, r.account_id)->Some_0.nonce == r.old_nonce
    &&& forall|k: int|
        0 <= k < r.consumed_notes.len() ==> spec_note(s, #[trigger] r.consumed_notes[k]) is Some
}

/// The pending transaction record that submission stores.
pub open spec fn spec_pending_record(r: ExecutionResultV) -> TransactionRecordV {
    TransactionRecordV {
        id: r.tx_id,
        account: r.account_id,
        status: TransactionStatus::Pending,
        input_notes: r.consumed_notes,
        output_notes: note_ids(r.created_notes),
    }
}

/// Applies a proven transaction to the store speculatively, after the
/// network accepted it at `height`.
///
/// Succeeds exactly when the snapshot is still submittable for this proof
/// and result. A proof that does not bind the result, or an account whose
/// nonce moved since the witness was built — a stale witness — is
/// `ProofRejected`; an untracked account or consumed note is `NotFound`; in
/// both cases the store is untouched. On success the account takes its
/// post-execution state, each consumed note is marked consumed by this
/// transaction, each created note enters as expected, the transaction is
/// recorded pending, and nothing else changes.
pub fn apply_submission(
    store: &mut Store,
    proof: &Proof,
    result: &ExecutionResult,
    height: u32,
) -> (r: Result<u32, EngineError>)
    requires
        old(store)@.wf(),
        vault_wf(result@.account_after.vault),
        result_wf(result@),
    ensures
        final(store)@.wf(),
        (r is Ok) == spec_submittable(old(store)@, *proof, result@),
        match r {
            Ok(h) => {
                &&& h == height
                &&& spec_account(final(store)@, result.account_id) == Some(
                    result@.account_after,
                )
                &&& forall|x: crate::types::AccountId|
                    x != result.account_id ==> spec_account(final(store)@, x) == spec_account(
                        old(store)@,
                        x,
                    )
                &&& forall|k: int|
                    0 <= k < result@.consumed_notes.len() ==> spec_note(
                        final(store)@,
                        #[trigger] result@.consumed_notes[k],
                    ) == Some(
                        with_status(
                            spec_note(old(store)@, result@.consumed_notes[k])->Some_0,
                            NoteStatus::Consumed { by: result.tx_id },
                        ),
                    )
                &&& forall|k: int|
                    0 <= k < result@.created_notes.len() ==> spec_note(
                        final(store)@,
                        (#[trigger] result@.created_notes[k]).id,
                    ) == Some(result@.created_notes[k])
                &&& forall|id: u64|
                    !result@.consumed_notes.contains(id) && !note_ids(
                        result@.created_notes,
                    ).contains(id) ==> spec_note(final(store)@, id) == spec_note(old(store)@, id)
                &&& spec_transaction(final(store)@, result.tx_id) == Some(
                    spec_pending_record(result@),
                )
                &&& forall|x: u64|
                    x != result.tx_id ==> spec_transaction(final(store)@, x) == spec_transaction(
                        old(store)@,
                        x,
                    )
                &&& final(store)@.checkpoint == old(store)@.checkpoint
            },
            Err(e) => {
                &&& final(store)@ == old(store)@
                &&& (e == EngineError::ProofRejected || e == EngineError::NotFound)
                &&& e == EngineError::ProofRejected ==> (!spec_proof_matches(*proof, result@) || (
                spec_account(old(store)@, result.account_id) is Some && spec_account(
                    old(store)@,
                    result.account_id,
                )->Some_0.nonce != result.old_nonce))
                &&& e == EngineError::NotFound ==> (spec_account(
                    old(store)@,
                    result.account_id,
                ) is None || exists|k: int|
                    0 <= k < result@.consumed_notes.len() && spec_note(
                        old(store)@,
                        #[trigger] result@.consumed_notes[k],
                    ) is None)
            },
        },
{
    let ghost s0 = store@;
    if !verify_proof(proof, result) {
        proof {
            assert(store@ =~= old(store)@);
        }
        return Err(EngineError::ProofRejected);
    }
    match store.get_account(result.account_id) {
        Some(a) => {
            if a.nonce != result.old_nonce {
                proof {
                    assert(store@ =~= old(store)@);
                }
                return Err(EngineError::ProofRejected);
            }
        },
        None => {
            proof {
                assert(store@ =~= old(store)@);
            }
            return Err(EngineError::NotFound);
        },
    }
    // Validate every consumed note before touching anything.
    let mut v: usize = 0;
    while v < result.consumed_notes.len()
        invariant
            store@ == s0,
            s0 == old(store)@,
            s0.wf(),
            0 <= v <= result.consumed_notes@.len(),
            result@.consumed_notes == result.consumed_notes@,
            forall|k: int|
                0 <= k < v ==> spec_note(s0, #[trigger] result@.consumed_notes[k]) is Some,
        decreases result.consumed_notes@.len() - v,
    {
        match store.get_note(result.consumed_notes[v]) {
            Some(_) => {},
            None => {
                proof {
                    assert(spec_note(s0, result@.consumed_notes[v as int]) is None);
                    assert(store@ =~= old(store)@);
                }
                return Err(EngineError::NotFound);
            },
        }
        v = v + 1;
    }
    proof {
        assert(spec_submittable(s0, *proof, result@));
    }

    // Tentative account delta.
    store.upsert_account(result.account_after.duplicate());
    let ghost s1 = store@;

    // Mark the consumed notes.
    let mut i: usize = 0;
    while i < result.consumed_notes.len()
        invariant
            store@.wf(),
            0 <= i <= result.consumed_notes@.len(),
            result@.consumed_notes == result.consumed_notes@,
            unique_by(result@.consumed_notes, |x: u64| x),
            s1.notes == s0.notes,
            forall|k: int|
                0 <= k < result@.consumed_notes.len() ==> spec_note(
                    s0,
                    #[trigger] result@.consumed_notes[k],
                ) is Some,
            forall|k: int|
                0 <= k < i ==> spec_note(store@, #[trigger] result@.consumed_notes[k]) == Some(
                    with_status(
                        spec_note(s0, result@.consumed_notes[k])->Some_0,
                        NoteStatus::Consumed { by: result.tx_id },
                    ),
                ),
            forall|id: u64|
                !result@.consumed_notes.take(i as int).contains(id) ==> spec_note(store@, id)
                    == spec_note(s1, id),
            store@.accounts == s1.accounts,
            store@.transactions == s1.transactions,
            store@.checkpoint == s1.checkpoint,
        decreases result.consumed_notes@.len() - i,
    {
        let nid = result.consumed_notes[i];
        let ghost pre = store@;
        proof {
            assert(!result@.consumed_notes.take(i as int).contains(nid)) by {
                if result@.consumed_notes.take(i as int).contains(nid) {
                    let j = choose|j: int|
                        0 <= j < i && result@.consumed_notes.take(i as int)[j] == nid;
                    assert(result@.consumed_notes[j] == result@.consumed_notes[i as int]);
                    assert(false);
                }
            }
            assert(spec_note(pre, nid) == spec_note(s1, nid));
            assert(spec_note(s1, nid) == spec_note(s0, nid));
        }
        store.mark_note_consumed(nid, result.tx_id);
        proof {
            assert forall|id: u64|
                !result@.consumed_notes.take(i as int + 1).contains(id) implies spec_note(
                store@,
                id,
            ) == spec_note(s1, id) by {
                assert forall|j: int|
                    0 <= j < i implies result@.consumed_notes.take(i as int + 1)[j]
                    == result@.consumed_notes[j] by {}
                if result@.consumed_notes.take(i as int).contains(id) {
                    let j = choose|j: int|
                        0 <= j < i && result@.consumed_notes.take(i as int)[j] == id;
                    assert(result@.consumed_notes.take(i as int + 1)[j] == id);
                    assert(false);
                }
                if id == nid {
                    assert(result@.consumed_notes.take(i as int + 1)[i as int] == nid);
                    assert(false);
                }
                assert(spec_note(store@, id) == spec_note(pre, id));
            }
            assert forall|k: int|
                0 <= k < i + 1 implies spec_note(store@, #[trigger] result@.consumed_notes[k])
                == Some(
                with_status(
                    spec_note(s0, result@.consumed_notes[k])->Some_0,
                    NoteStatus::Consumed { by: result.tx_id },
                ),
            ) by {
                if k < i {
                    assert(result@.consumed_notes[k] != nid);
                    assert(spec_note(store@, result@.consumed_notes[k]) == spec_note(
                        pre,
                        result@.consumed_notes[k],
                    ));
                }
            }
        }
        i = i + 1;
    }
    let ghost s2 = store@;

    // Insert the created notes as expected.
    let mut c: usize = 0;
    while c < result.created_notes.len()
        invariant
            store@.wf(),
            0 <= c <= result.created_notes@.len(),
            result@.created_notes.len() == result.created_notes@.len(),
            forall|k: int|
                0 <= k < result.created_notes@.len() ==> #[trigger] result@.created_notes[k]
                    == result.created_notes@[k]@,
            unique_by(result@.created_notes, note_key()),
            forall|k: int|
                0 <= k < c ==> spec_note(store@, (#[trigger] result@.created_notes[k]).id) == Some(
                    result@.created_notes[k],
                ),
            forall|id: u64|
                !note_ids(result@.created_notes.take(c as int)).contains(id) ==> spec_note(
                    store@,
                    id,
                ) == spec_note(s2, id),
            store@.accounts == s2.accounts,
            store@.transactions == s2.transactions,
            store@.checkpoint == s2.checkpoint,
        decreases result.created_notes@.len() - c,
    {
        let n = result.created_notes[c].duplicate();
        let ghost nv = result@.created_notes[c as int];
        let ghost pre = store@;
        store.upsert_note(n);
        proof {
            assert(spec_note(store@, nv.id) == Some(nv));
            assert forall|id: u64|
                !note_ids(result@.created_notes.take(c as int + 1)).contains(id) implies spec_note(
                store@,
                id,
            ) == spec_note(s2, id) by {
                let idsc = note_ids(result@.created_notes.take(c as int));
                let idsc1 = note_ids(result@.created_notes.take(c as int + 1));
                assert(idsc1[c as int] == nv.id);
                if idsc.contains(id) {
                    let j = choose|j: int| 0 <= j < c && idsc[j] == id;
                    assert(idsc1[j] == id);
                    assert(false);
                }
                if id == nv.id {
                    assert(idsc1.contains(nv.id)) by {
                        assert(idsc1[c as int] == nv.id);
                    }
                    assert(false);
                }
                assert(spec_note(store@, id) == spec_note(pre, id));
            }
            assert forall|k: int|
                0 <= k < c + 1 implies spec_note(
                store@,
                (#[trigger] result@.created_notes[k]).id,
            ) == Some(result@.created_notes[k]) by {
                if k < c {
                    assert(result@.created_notes[k].id != nv.id);
                    assert(spec_note(store@, result@.created_notes[k].id) == spec_note(
                        pre,
                        result@.created_notes[k].id,
                    ));
                }
            }
        }
        c = c + 1;
    }
    let ghost s3 = store@;

    // Record the transaction as pending.
    let mut output_notes: Vec<u64> = Vec::new();
    let mut d: usize = 0;
    while d < result.created_notes.len()
        invariant
            0 <= d <= result.created_notes@.len(),
            result@.created_notes.len() == result.created_notes@.len(),
            forall|k: int|
                0 <= k < result.created_notes@.len() ==> #[trigger] result@.created_notes[k]
                    == result.created_notes@[k]@,
            output_notes@.len() == d as int,
            forall|k: int|
                0 <= k < d ==> #[trigger] output_notes@[k] == result@.created_notes[k].id,
        decreases result.created_notes@.len() - d,
    {
        output_notes.push(result.created_notes[d].id);
        d = d + 1;
    }
    let record = TransactionRecord {
        id: result.tx_id,
        account: result.account_id,
        status: TransactionStatus::Pending,
        input_notes: copy_vec(&result.consumed_notes),
        output_notes,
    };
    proof {
        assert(record@.output_notes =~= note_ids(result@.created_notes));
        assert(record@ =~= spec_pending_record(result@));
    }
    store.upsert_transaction(record);

    proof {
        // Stitch the phases back to the original snapshot.
        assert(store@.accounts == s3.accounts && s3.accounts == s2.accounts && s2.accounts
            == s1.accounts);
        assert forall|x: crate::types::AccountId|
            x != result.account_id implies spec_account(store@, x) == spec_account(s0, x) by {
            assert(spec_account(store@, x) == spec_account(s1, x));
        }
        assert(spec_account(store@, result.account_id) == Some(result@.account_after));
        assert(store@.notes == s3.notes);
        assert forall|k: int|
            0 <= k < result@.consumed_notes.len() implies spec_note(
            store@,
            #[trigger] result@.consumed_notes[k],
        ) == Some(
            with_status(
                spec_note(s0, result@.consumed_notes[k])->Some_0,
                NoteStatus::Consumed { by: result.tx_id },
            ),
        ) by {
            let id = result@.consumed_notes[k];
            assert(!note_ids(result@.created_notes).contains(id)) by {
                if note_ids(result@.created_notes).contains(id) {
                    let j = choose|j: int|
                        0 <= j < result@.created_notes.len() && note_ids(
                            result@.created_notes,
                        )[j] == id;
                    assert(result@.created_notes[j].id == id);
                    assert(result@.consumed_notes.contains(id)) by {
                        assert(result@.consumed_notes[k] == id);
                    }
                    assert(false);
                }
            }
            assert(note_ids(result@.created_notes.take(result@.created_notes.len() as int))
                =~= note_ids(result@.created_notes));
            assert(spec_note(s3, id) == spec_note(s2, id));
            assert(spec_note(store@, id) == spec_note(s3, id));
        }
        assert(result@.consumed_notes.take(result@.consumed_notes.len() as int)
            =~= result@.consumed_notes);
        assert forall|id: u64|
            !result@.consumed_notes.contains(id) && !note_ids(result@.created_notes).contains(
                id,
            ) implies spec_note(store@, id) == spec_note(s0, id) by {
            assert(note_ids(result@.created_notes.take(result@.created_notes.len() as int))
                =~= note_ids(result@.created_notes));
            assert(spec_note(s3, id) == spec_note(s2, id));
            assert(spec_note(s2, id) == spec_note(s1, id));
            assert(spec_note(s1, id) == spec_note(s0, id));
            assert(spec_note(store@, id) == spec_note(s3, id));
        }
        assert forall|k: int|
            0 <= k < result@.created_notes.len() implies spec_note(
            store@,
            (#[trigger] result@.created_notes[k]).id,
        ) == Some(result@.created_notes[k]) by {
            assert(spec_note(store@, result@.created_notes[k].id) == spec_note(
                s3,
                result@.created_notes[k].id,
            ));
        }
        assert(s3.transactions == s2.transactions && s2.transactions == s1.transactions
            && s1.transactions == s0.transactions);
        assert forall|x: u64|
            x != result.tx_id implies spec_transaction(store@, x) == spec_transaction(
            s0,
            x,
        ) by {
            assert(spec_transaction(s3, x) == spec_transaction(s0, x));
        }
        assert(store@.checkpoint == s0.checkpoint);
    }
    Ok(height)
}

} // verus!
