//! The executor: running a witness against its snapshot, locally and
//! without finality.
//!
//! Execution applies the authorization gate (a script calling a protected
//! procedure needs an authorized transaction), the routing rules for every
//! consumed note, the vault arithmetic for consumed and created assets, and
//! the script's declared storage writes. It is a pure function of the
//! witness — see [`spec_execute`] and [`lemma_execute_deterministic`] — and
//! touches no store state; its result becomes visible only when submitted.
use vstd::prelude::*;
use crate::account::{AccountRecord, AccountRecordV, StorageSlot, StorageSlotV, spec_vault_add,
    spec_vault_remove, vault_wf, vault_add, vault_remove};
use crate::builder::{TransactionWitness, TransactionWitnessV};
use crate::digest::{digest_words, spec_digest};
use crate::matcher::spec_note_matches;
use crate::note::{NoteRecord, NoteRecordV, note_views, tag_for_account, spec_tag_for_account};
use crate::types::{AccountId, Asset, EngineError, NoteKind, Word4, copy_vec};

verus! {

/// What a successful local execution produces: the transaction id, the
/// account's state after the delta, the notes it created and the note ids it
/// consumed. Nothing of it is final until submitted.
pub struct ExecutionResult {
    pub tx_id: u64,
    pub account_id: AccountId,
    pub old_nonce: u64,
    pub account_after: AccountRecord,
    pub created_notes: Vec<NoteRecord>,
    pub consumed_notes: Vec<u64>,
}

/// Mathematical view of [`ExecutionResult`].
#[verifier::ext_equal]
pub struct ExecutionResultV {
    pub tx_id: u64,
    pub account_id: AccountId,
    pub old_nonce: u64,
    pub account_after: AccountRecordV,
    pub created_notes: Seq<NoteRecordV>,
    pub consumed_notes: Seq<u64>,
}

impl View for ExecutionResult {
    type V = ExecutionResultV;

    open spec fn view(&self) -> ExecutionResultV {
        ExecutionResultV {
            tx_id: self.tx_id,
            account_id: self.account_id,
            old_nonce: self.old_nonce,
            account_after: self.account_after@,
            created_notes: self.created_notes@.map_values(|n: NoteRecord| n@),
            consumed_notes: self.consumed_notes@,
        }
    }
}

/// Whether the script calls a procedure the account protects.
pub open spec fn spec_calls_protected(calls: Seq<Word4>, protected: Seq<Word4>) -> bool {
    exists|i: int| 0 <= i < calls.len() && protected.contains(#[trigger] calls[i])
}

/// The authorization gate: a script calling a protected procedure passes
/// only in an authorized transaction.
pub open spec fn spec_gate_ok(w: TransactionWitnessV) -> bool {
    match w.script {
        Some(sc) => w.authorized || !spec_calls_protected(sc.calls, w.account.protected_procedures),
        None => true,
    }
}

/// Whether the routing rules let the account consume every input note.
pub open spec fn spec_inputs_match(w: TransactionWitnessV) -> bool {
    forall|k: int|
        0 <= k < w.input_notes.len() ==> spec_note_matches(#[trigger] w.input_notes[k], w.account)
}

/// The vault after adding a list of assets, one checked addition at a time.
pub open spec fn spec_add_assets(v: Seq<Asset>, assets: Seq<Asset>) -> Result<
    Seq<Asset>,
    EngineError,
>
    decreases assets.len(),
{
    if assets.len() == 0 {
        Ok(v)
    } else {
        match spec_vault_add(v, assets.first()) {
            Ok(v2) => spec_add_assets(v2, assets.skip(1)),
            Err(e) => Err(e),
        }
    }
}

/// The vault after adding every asset of every note, in order.
pub open spec fn spec_add_notes(v: Seq<Asset>, notes: Seq<NoteRecordV>) -> Result<
    Seq<Asset>,
    EngineError,
>
    decreases notes.len(),
{
    if notes.len() == 0 {
        Ok(v)
    } else {
        match spec_add_assets(v, notes.first().assets) {
            Ok(v2) => spec_add_notes(v2, notes.skip(1)),
            Err(e) => Err(e),
        }
    }
}

/// The vault after removing a list of assets; a faucet does not pay for
/// assets it issues itself, it mints them.
pub open spec fn spec_remove_assets(
    v: Seq<Asset>,
    assets: Seq<Asset>,
    account_id: AccountId,
    is_faucet: bool,
) -> Result<Seq<Asset>, EngineError>
    decreases assets.len(),
{
    if assets.len() == 0 {
        Ok(v)
    } else if is_faucet && assets.first().faucet == account_id {
        spec_remove_assets(v, assets.skip(1), account_id, is_faucet)
    } else {
        match spec_vault_remove(v, assets.first()) {
            Ok(v2) => spec_remove_assets(v2, assets.skip(1), account_id, is_faucet),
            Err(e) => Err(e),
        }
    }
}

/// The vault after funding every created note, in order.
pub open spec fn spec_remove_notes(
    v: Seq<Asset>,
    notes: Seq<NoteRecordV>,
    account_id: AccountId,
    is_faucet: bool,
) -> Result<Seq<Asset>, EngineError>
    decreases notes.len(),
{
    if notes.len() == 0 {
        Ok(v)
    } else {
        match spec_remove_assets(v, notes.first().assets, account_id, is_faucet) {
            Ok(v2) => spec_remove_notes(v2, notes.skip(1), account_id, is_faucet),
            Err(e) => Err(e),
        }
    }
}

/// The storage after the script's scalar writes; a write outside the slots,
/// or into a map slot, is a deterministic rejection.
pub open spec fn spec_apply_writes(st: Seq<StorageSlotV>, writes: Seq<(u64, Word4)>) -> Result<
    Seq<StorageSlotV>,
    EngineError,
>
    decreases writes.len(),
{
    if writes.len() == 0 {
        Ok(st)
    } else {
        let w = writes.first();
        if w.0 < st.len() && st[w.0 as int] is Value {
            spec_apply_writes(st.update(w.0 as int, StorageSlotV::Value(w.1)), writes.skip(1))
        } else {
            Err(EngineError::ScriptFailure)
        }
    }
}

/// The script's storage writes, if it has any.
pub open spec fn spec_writes_of(w: TransactionWitnessV) -> Seq<(u64, Word4)> {
    match w.script {
        Some(sc) => sc.storage_writes,
        None => Seq::empty(),
    }
}

/// Ids of a note list.
pub open spec fn note_ids(notes: Seq<NoteRecordV>) -> Seq<u64> {
    notes.map_values(|n: NoteRecordV| n.id)
}

/// Word encoding of a transaction's identity: account, nonce, input and
/// output note ids, and the script commitment with its arguments.
pub open spec fn spec_tx_encode(w: TransactionWitnessV) -> Seq<u64> {
    seq![w.account.id.prefix, w.account.id.suffix, w.account.nonce, w.input_notes.len() as u64]
        + note_ids(w.input_notes) + seq![w.output_notes.len() as u64] + note_ids(w.output_notes)
        + (match w.script {
        Some(sc) => seq![1u64, sc.root.e0, sc.root.e1, sc.root.e2, sc.root.e3, sc.args.len() as u64]
            + sc.args,
        None => seq![0u64],
    })
}

/// Transaction identity: the digest of inputs, outputs, script and account.
pub open spec fn spec_tx_id(w: TransactionWitnessV) -> u64 {
    spec_digest(spec_tx_encode(w))
}

/// The account record after a successful execution: nonce advanced by one,
/// storage and vault replaced by their updated states.
pub open spec fn spec_account_after(
    a: AccountRecordV,
    storage: Seq<StorageSlotV>,
    vault: Seq<Asset>,
) -> AccountRecordV {
    AccountRecordV {
        id: a.id,
        nonce: (a.nonce + 1) as u64,
        storage,
        vault,
        code_commitment: a.code_commitment,
        updatable_code: a.updatable_code,
        visibility: a.visibility,
        is_faucet: a.is_faucet,
        accepts_open_notes: a.accepts_open_notes,
        protected_procedures: a.protected_procedures,
    }
}

/// What execution returns, as a function of the witness alone.
///
/// A witness whose account cannot advance its nonce, whose script fails the
/// authorization gate, whose inputs break the routing rules, or whose script
/// writes outside the scalar slots is rejected with `ScriptFailure`; vault
/// arithmetic that would overflow or underflow is an `AssetError`; everything
/// else succeeds.
pub open spec fn spec_execute(w: TransactionWitnessV) -> Result<ExecutionResultV, EngineError> {
    if w.account.nonce == u64::MAX {
        Err(EngineError::ScriptFailure)
    } else if !spec_gate_ok(w) {
        Err(EngineError::ScriptFailure)
    } else if !spec_inputs_match(w) {
        Err(EngineError::ScriptFailure)
    } else {
        match spec_add_notes(w.account.vault, w.input_notes) {
            Err(e) => Err(e),
            Ok(v1) => match spec_remove_notes(v1, w.output_notes, w.account.id, w.account.is_faucet) {
                Err(e) => Err(e),
                Ok(v2) => match spec_apply_writes(w.account.storage, spec_writes_of(w)) {
                    Err(e) => Err(e),
                    Ok(st2) => Ok(
                        ExecutionResultV {
                            tx_id: spec_tx_id(w),
                            account_id: w.account.id,
                            old_nonce: w.account.nonce,
                            account_after: spec_account_after(w.account, st2, v2),
                            created_notes: w.output_notes,
                            consumed_notes: note_ids(w.input_notes),
                        },
                    ),
                },
            },
        }
    }
}

/// Execution is deterministic: the same witness always yields the same
/// result, so executing a built transaction twice against an unchanged store
/// gives identical execution results.
pub proof fn lemma_execute_deterministic(
    w1: TransactionWitnessV,
    w2: TransactionWitnessV,
    r1: Result<ExecutionResultV, EngineError>,
    r2: Result<ExecutionResultV, EngineError>,
)
    requires
        w1 == w2,
        r1 == spec_execute(w1),
        r2 == spec_execute(w2),
    ensures
        r1 == r2,
{
}

/// Whether the vector holds the given word.
fn word_in(v: &Vec<Word4>, x: Word4) -> (b: bool)
    ensures
        b == v@.contains(x),
{
    let mut i: usize = 0;
    while i < v.len()
        invariant
            0 <= i <= v@.len(),
            forall|k: int| 0 <= k < i ==> v@[k] != x,
        decreases v@.len() - i,
    {
        if v[i] == x {
            proof {
                assert(v@[i as int] == x);
            }
            return true;
        }
        i = i + 1;
    }
    proof {
        if v@.contains(x) {
            let k = choose|k: int| 0 <= k < v@.len() && v@[k] == x;
            assert(false);
        }
    }
    false
}

/// Whether the script calls one of the protected procedures.
fn calls_protected(calls: &Vec<Word4>, protected: &Vec<Word4>) -> (b: bool)
    ensures
        b == spec_calls_protected(calls@, protected@),
{
    let mut i: usize = 0;
    while i < calls.len()
        invariant
            0 <= i <= calls@.len(),
            forall|k: int| 0 <= k < i ==> !protected@.contains(#[trigger] calls@[k]),
        decreases calls@.len() - i,
    {
        if word_in(protected, calls[i]) {
            proof {
                assert(protected@.contains(calls@[i as int]));
            }
            return true;
        }
        i = i + 1;
    }
    proof {
        if spec_calls_protected(calls@, protected@) {
            let k = choose|k: int| 0 <= k < calls@.len() && protected@.contains(#[trigger] calls@[k]);
            assert(false);
        }
    }
    false
}

/// Adds every asset to the vault, stopping at the first overflow.
fn add_assets(vault: &mut Vec<Asset>, assets: &Vec<Asset>) -> (r: Result<(), EngineError>)
    requires
        vault_wf(old(vault)@),
    ensures
        match r {
            Ok(()) => spec_add_assets(old(vault)@, assets@) == Ok::<Seq<Asset>, EngineError>(
                final(vault)@,
            ) && vault_wf(final(vault)@),
            Err(e) => spec_add_assets(old(vault)@, assets@) == Err::<Seq<Asset>, EngineError>(e),
        },
{
    let ghost v0 = vault@;
    let mut j: usize = 0;
    proof {
        assert(assets@.skip(0) =~= assets@);
    }
    while j < assets.len()
        invariant
            vault_wf(vault@),
            0 <= j <= assets@.len(),
            v0 == old(vault)@,
            spec_add_assets(v0, assets@) == spec_add_assets(vault@, assets@.skip(j as int)),
        decreases assets@.len() - j,
    {
        proof {
            assert(assets@.skip(j as int).first() == assets@[j as int]);
            assert(assets@.skip(j as int).skip(1) =~= assets@.skip(j as int + 1));
        }
        match vault_add(vault, assets[j]) {
            Ok(()) => {},
            Err(e) => {
                return Err(e);
            },
        }
        j = j + 1;
    }
    proof {
        assert(assets@.skip(assets@.len() as int) =~= Seq::<Asset>::empty());
    }
    Ok(())
}

/// Removes every asset from the vault, stopping at the first underflow; a
/// faucet mints its own asset instead of paying it out.
fn remove_assets(
    vault: &mut Vec<Asset>,
    assets: &Vec<Asset>,
    account_id: AccountId,
    is_faucet: bool,
) -> (r: Result<(), EngineError>)
    requires
        vault_wf(old(vault)@),
    ensures
        match r {
            Ok(()) => spec_remove_assets(old(vault)@, assets@, account_id, is_faucet) == Ok::<
                Seq<Asset>,
                EngineError,
            >(final(vault)@) && vault_wf(final(vault)@),
            Err(e) => spec_remove_assets(old(vault)@, assets@, account_id, is_faucet) == Err::<
                Seq<Asset>,
                EngineError,
            >(e),
        },
{
    let ghost v0 = vault@;
    let mut j: usize = 0;
    proof {
        assert(assets@.skip(0) =~= assets@);
    }
    while j < assets.len()
        invariant
            vault_wf(vault@),
            0 <= j <= assets@.len(),
            v0 == old(vault)@,
            spec_remove_assets(v0, assets@, account_id, is_faucet) == spec_remove_assets(
                vault@,
                assets@.skip(j as int),
                account_id,
                is_faucet,
            ),
        decreases assets@.len() - j,
    {
        proof {
            assert(assets@.skip(j as int).first() == assets@[j as int]);
            assert(assets@.skip(j as int).skip(1) =~= assets@.skip(j as int + 1));
        }
        let a = assets[j];
        if !(is_faucet && a.faucet == account_id) {
            match vault_remove(vault, a) {
                Ok(()) => {},
                Err(e) => {
                    return Err(e);
                },
            }
        }
        j = j + 1;
    }
    proof {
        assert(assets@.skip(assets@.len() as int) =~= Seq::<Asset>::empty());
    }
    Ok(())
}

/// Adds the assets of every note to the vault.
fn add_notes(vault: &mut Vec<Asset>, notes: &Vec<NoteRecord>) -> (r: Result<(), EngineError>)
    requires
        vault_wf(old(vault)@),
    ensures
        match r {
            Ok(()) => spec_add_notes(old(vault)@, note_views(notes@)) == Ok::<
                Seq<Asset>,
                EngineError,
            >(final(vault)@) && vault_wf(final(vault)@),
            Err(e) => spec_add_notes(old(vault)@, note_views(notes@)) == Err::<
                Seq<Asset>,
                EngineError,
            >(e),
        },
{
    let ghost v0 = vault@;
    let ghost nv = note_views(notes@);
    let mut i: usize = 0;
    proof {
        assert(nv.skip(0) =~= nv);
    }
    while i < notes.len()
        invariant
            vault_wf(vault@),
            0 <= i <= notes@.len(),
            v0 == old(vault)@,
            nv == note_views(notes@),
            nv.len() == notes@.len(),
            forall|k: int| 0 <= k < notes@.len() ==> #[trigger] nv[k] == notes@[k]@,
            spec_add_notes(v0, nv) == spec_add_notes(vault@, nv.skip(i as int)),
        decreases notes@.len() - i,
    {
        proof {
            assert(nv.skip(i as int).first() == nv[i as int]);
            assert(nv.skip(i as int).skip(1) =~= nv.skip(i as int + 1));
        }
        match add_assets(vault, &notes[i].assets) {
            Ok(()) => {},
            Err(e) => {
                return Err(e);
            },
        }
        i = i + 1;
    }
    proof {
        assert(nv.skip(nv.len() as int) =~= Seq::<NoteRecordV>::empty());
    }
    Ok(())
}

/// Funds every created note from the vault.
fn remove_notes(
    vault: &mut Vec<Asset>,
    notes: &Vec<NoteRecord>,
    account_id: AccountId,
    is_faucet: bool,
) -> (r: Result<(), EngineError>)
    requires
        vault_wf(old(vault)@),
    ensures
        match r {
            Ok(()) => spec_remove_notes(old(vault)@, note_views(notes@), account_id, is_faucet)
                == Ok::<Seq<Asset>, EngineError>(final(vault)@) && vault_wf(final(vault)@),
            Err(e) => spec_remove_notes(old(vault)@, note_views(notes@), account_id, is_faucet)
                == Err::<Seq<Asset>, EngineError>(e),
        },
{
    let ghost v0 = vault@;
    let ghost nv = note_views(notes@);
    let mut i: usize = 0;
    proof {
        assert(nv.skip(0) =~= nv);
    }
    while i < notes.len()
        invariant
            vault_wf(vault@),
            0 <= i <= notes@.len(),
            v0 == old(vault)@,
            nv == note_views(notes@),
            nv.len() == notes@.len(),
            forall|k: int| 0 <= k < notes@.len() ==> #[trigger] nv[k] == notes@[k]@,
            spec_remove_notes(v0, nv, account_id, is_faucet) == spec_remove_notes(
                vault@,
                nv.skip(i as int),
                account_id,
                is_faucet,
            ),
        decreases notes@.len() - i,
    {
        proof {
            assert(nv.skip(i as int).first() == nv[i as int]);
            assert(nv.skip(i as int).skip(1) =~= nv.skip(i as int + 1));
        }
        match remove_assets(vault, &notes[i].assets, account_id, is_faucet) {
            Ok(()) => {},
            Err(e) => {
                return Err(e);
            },
        }
        i = i + 1;
    }
    proof {
        assert(nv.skip(nv.len() as int) =~= Seq::<NoteRecordV>::empty());
    }
    Ok(())
}

/// Views of a slot list.
pub open spec fn slot_views(s: Seq<StorageSlot>) -> Seq<StorageSlotV> {
    s.map_values(|x: StorageSlot| x@)
}

/// Applies the script's scalar storage writes.
fn apply_writes(storage: &mut Vec<StorageSlot>, writes: &Vec<(u64, Word4)>) -> (r: Result<
    (),
    EngineError,
>)
    ensures
        match r {
            Ok(()) => spec_apply_writes(slot_views(old(storage)@), writes@) == Ok::<
                Seq<StorageSlotV>,
                EngineError,
            >(slot_views(final(storage)@)),
            Err(e) => spec_apply_writes(slot_views(old(storage)@), writes@) == Err::<
                Seq<StorageSlotV>,
                EngineError,
            >(e),
        },
{
    let ghost st0 = slot_views(storage@);
    let mut j: usize = 0;
    proof {
        assert(writes@.skip(0) =~= writes@);
    }
    while j < writes.len()
        invariant
            0 <= j <= writes@.len(),
            st0 == slot_views(old(storage)@),
            spec_apply_writes(st0, writes@) == spec_apply_writes(
                slot_views(storage@),
                writes@.skip(j as int),
            ),
        decreases writes@.len() - j,
    {
        proof {
            assert(writes@.skip(j as int).first() == writes@[j as int]);
            assert(writes@.skip(j as int).skip(1) =~= writes@.skip(j as int + 1));
        }
        let (idx, val) = writes[j];
        let ghost pre = slot_views(storage@);
        proof {
            assert(pre.len() == storage@.len());
        }
        if idx >= storage.len() as u64 {
            return Err(EngineError::ScriptFailure);
        }
        let i = idx as usize;
        proof {
            assert(pre[idx as int] == storage@[idx as int]@);
        }
        let is_value = match &storage[i] {
            StorageSlot::Value(_) => true,
            StorageSlot::Mapping(_) => false,
        };
        if !is_value {
            return Err(EngineError::ScriptFailure);
        }
        storage[i] = StorageSlot::Value(val);
        proof {
            assert(slot_views(storage@) =~= pre.update(idx as int, StorageSlotV::Value(val)));
        }
        j = j + 1;
    }
    proof {
        assert(writes@.skip(writes@.len() as int) =~= Seq::<(u64, Word4)>::empty());
    }
    Ok(())
}

/// Computes the transaction id of a witness.
fn tx_id_of(w: &TransactionWitness) -> (id: u64)
    ensures
        id == spec_tx_id(w@),
{
    let mut ws: Vec<u64> = Vec::new();
    ws.push(w.account.id.prefix);
    ws.push(w.account.id.suffix);
    ws.push(w.account.nonce);
    ws.push(w.input_notes.len() as u64);
    let mut i: usize = 0;
    while i < w.input_notes.len()
        invariant
            0 <= i <= w.input_notes@.len(),
            w@.input_notes.len() == w.input_notes@.len(),
            forall|k: int|
                0 <= k < w.input_notes@.len() ==> #[trigger] w@.input_notes[k]
                    == w.input_notes@[k]@,
            ws@ =~= seq![
                w@.account.id.prefix,
                w@.account.id.suffix,
                w@.account.nonce,
                w@.input_notes.len() as u64,
            ] + note_ids(w@.input_notes).take(i as int),
        decreases w.input_notes@.len() - i,
    {
        ws.push(w.input_notes[i].id);
        proof {
            assert(note_ids(w@.input_notes)[i as int] == w@.input_notes[i as int].id);
            assert(note_ids(w@.input_notes).take(i as int + 1) =~= note_ids(
                w@.input_notes,
            ).take(i as int).push(w@.input_notes[i as int].id));
        }
        i = i + 1;
    }
    proof {
        assert(note_ids(w@.input_notes).take(w@.input_notes.len() as int) =~= note_ids(
            w@.input_notes,
        ));
    }
    ws.push(w.output_notes.len() as u64);
    let mut j: usize = 0;
    while j < w.output_notes.len()
        invariant
            0 <= j <= w.output_notes@.len(),
            w@.output_notes.len() == w.output_notes@.len(),
            forall|k: int|
                0 <= k < w.output_notes@.len() ==> #[trigger] w@.output_notes[k]
                    == w.output_notes@[k]@,
            ws@ =~= seq![
                w@.account.id.prefix,
                w@.account.id.suffix,
                w@.account.nonce,
                w@.input_notes.len() as u64,
            ] + note_ids(w@.input_notes) + seq![w@.output_notes.len() as u64] + note_ids(
                w@.output_notes,
            ).take(j as int),
        decreases w.output_notes@.len() - j,
    {
        ws.push(w.output_notes[j].id);
        proof {
            assert(note_ids(w@.output_notes)[j as int] == w@.output_notes[j as int].id);
            assert(note_ids(w@.output_notes).take(j as int + 1) =~= note_ids(
                w@.output_notes,
            ).take(j as int).push(w@.output_notes[j as int].id));
        }
        j = j + 1;
    }
    proof {
        assert(note_ids(w@.output_notes).take(w@.output_notes.len() as int) =~= note_ids(
            w@.output_notes,
        ));
    }
    match &w.script {
        Some(sc) => {
            ws.push(1u64);
            ws.push(sc.root.e0);
            ws.push(sc.root.e1);
            ws.push(sc.root.e2);
            ws.push(sc.root.e3);
            ws.push(sc.args.len() as u64);
            let ghost base = ws@;
            let mut m: usize = 0;
            while m < sc.args.len()
                invariant
                    0 <= m <= sc.args@.len(),
                    ws@ =~= base + sc.args@.take(m as int),
                decreases sc.args@.len() - m,
            {
                ws.push(sc.args[m]);
                proof {
                    assert(sc.args@.take(m as int + 1) =~= sc.args@.take(m as int).push(
                        sc.args@[m as int],
                    ));
                }
                m = m + 1;
            }
            proof {
                assert(sc.args@.take(sc.args@.len() as int) =~= sc.args@);
                assert(ws@ =~= spec_tx_encode(w@));
            }
        },
        None => {
            ws.push(0u64);
            proof {
                assert(ws@ =~= spec_tx_encode(w@));
            }
        },
    }
    digest_words(&ws)
}

/// Runs the witness locally: checks the authorization gate and the routing
/// rules, applies the vault arithmetic and the storage writes, and produces
/// the resulting state delta, without finality and without touching any
/// store. The result is exactly [`spec_execute`] of the witness.
pub fn execute(w: &TransactionWitness) -> (r: Result<ExecutionResult, EngineError>)
    requires
        vault_wf(w@.account.vault),
    ensures
        match r {
            Ok(res) => spec_execute(w@) == Ok::<ExecutionResultV, EngineError>(res@) && vault_wf(
                res@.account_after.vault,
            ),
            Err(e) => spec_execute(w@) == Err::<ExecutionResultV, EngineError>(e),
        },
{
    if w.account.nonce == u64::MAX {
        return Err(EngineError::ScriptFailure);
    }
    // The authorization gate.
    match &w.script {
        Some(sc) => {
            if !w.authorized && calls_protected(&sc.calls, &w.account.protected_procedures) {
                proof {
                    assert(!spec_gate_ok(w@));
                }
                return Err(EngineError::ScriptFailure);
            }
        },
        None => {},
    }
    proof {
        assert(spec_gate_ok(w@));
    }
    // The routing rules for every consumed note.
    let tag = tag_for_account(w.account.id);
    let mut i: usize = 0;
    while i < w.input_notes.len()
        invariant
            0 <= i <= w.input_notes@.len(),
            w@.input_notes.len() == w.input_notes@.len(),
            forall|k: int|
                0 <= k < w.input_notes@.len() ==> #[trigger] w@.input_notes[k]
                    == w.input_notes@[k]@,
            tag == spec_tag_for_account(w@.account.id),
            forall|k: int|
                0 <= k < i ==> spec_note_matches(#[trigger] w@.input_notes[k], w@.account),
        decreases w.input_notes@.len() - i,
    {
        let n = &w.input_notes[i];
        let matches_account = if n.metadata.tag == tag {
            true
        } else {
            match n.metadata.kind {
                NoteKind::Public => w.account.accepts_open_notes,
                NoteKind::Private => false,
            }
        };
        if !matches_account {
            proof {
                assert(!spec_note_matches(w@.input_notes[i as int], w@.account));
            }
            return Err(EngineError::ScriptFailure);
        }
        i = i + 1;
    }
    proof {
        assert(spec_inputs_match(w@));
    }
    // Vault arithmetic: consumed assets in, created assets out.
    let mut vault = copy_vec(&w.account.vault);
    match add_notes(&mut vault, &w.input_notes) {
        Ok(()) => {},
        Err(e) => {
            proof {
                assert(note_views(w.input_notes@) =~= w@.input_notes);
            }
            return Err(e);
        },
    }
    match remove_notes(&mut vault, &w.output_notes, w.account.id, w.account.is_faucet) {
        Ok(()) => {},
        Err(e) => {
            proof {
                assert(note_views(w.input_notes@) =~= w@.input_notes);
                assert(note_views(w.output_notes@) =~= w@.output_notes);
            }
            return Err(e);
        },
    }
    // The script's declared storage writes.
    let mut storage: Vec<StorageSlot> = Vec::new();
    let mut s: usize = 0;
    while s < w.account.storage.len()
        invariant
            0 <= s <= w.account.storage@.len(),
            storage@.len() == s as int,
            forall|k: int| 0 <= k < s ==> (#[trigger] storage@[k])@ == w.account.storage@[k]@,
        decreases w.account.storage@.len() - s,
    {
        storage.push(w.account.storage[s].duplicate());
        s = s + 1;
    }
    proof {
        assert(slot_views(storage@) =~= w@.account.storage);
    }
    let empty_writes: Vec<(u64, Word4)> = Vec::new();
    let write_result = match &w.script {
        Some(sc) => apply_writes(&mut storage, &sc.storage_writes),
        None => apply_writes(&mut storage, &empty_writes),
    };
    match write_result {
        Ok(()) => {},
        Err(e) => {
            proof {
                assert(note_views(w.input_notes@) =~= w@.input_notes);
                assert(note_views(w.output_notes@) =~= w@.output_notes);
                assert(spec_writes_of(w@) =~= match w@.script {
                    Some(sc) => sc.storage_writes,
                    None => Seq::<(u64, Word4)>::empty(),
                });
            }
            return Err(e);
        },
    }
    // Assemble the result.
    let tx_id = tx_id_of(w);
    let account_after = AccountRecord {
        id: w.account.id,
        nonce: w.account.nonce + 1,
        storage,
        vault,
        code_commitment: w.account.code_commitment,
        updatable_code: w.account.updatable_code,
        visibility: w.account.visibility,
        is_faucet: w.account.is_faucet,
        accepts_open_notes: w.account.accepts_open_notes,
        protected_procedures: copy_vec(&w.account.protected_procedures),
    };
    let mut created_notes: Vec<NoteRecord> = Vec::new();
    let mut c: usize = 0;
    while c < w.output_notes.len()
        invariant
            0 <= c <= w.output_notes@.len(),
            created_notes@.len() == c as int,
            forall|k: int| 0 <= k < c ==> (#[trigger] created_notes@[k])@ == w.output_notes@[k]@,
        decreases w.output_notes@.len() - c,
    {
        created_notes.push(w.output_notes[c].duplicate());
        c = c + 1;
    }
    let mut consumed_notes: Vec<u64> = Vec::new();
    let mut d: usize = 0;
    while d < w.input_notes.len()
        invariant
            0 <= d <= w.input_notes@.len(),
            consumed_notes@.len() == d as int,
            forall|k: int| 0 <= k < d ==> #[trigger] consumed_notes@[k] == w.input_notes@[k]@.id,
        decreases w.input_notes@.len() - d,
    {
        consumed_notes.push(w.input_notes[d].id);
        d = d + 1;
    }
    let res = ExecutionResult {
        tx_id,
        account_id: w.account.id,
        old_nonce: w.account.nonce,
        account_after,
        created_notes,
        consumed_notes,
    };
    proof {
        assert(note_views(w.input_notes@) =~= w@.input_notes);
        assert(note_views(w.output_notes@) =~= w@.output_notes);
        assert(spec_writes_of(w@) =~= match w@.script {
            Some(sc) => sc.storage_writes,
            None => Seq::<(u64, Word4)>::empty(),
        });
        assert(res@.created_notes =~= w@.output_notes);
        assert(res@.consumed_notes =~= note_ids(w@.input_notes));
        assert(res@.account_after.storage =~= spec_execute(
            w@,
        )->Ok_0.account_after.storage);
        assert(res@ =~~= spec_execute(w@)->Ok_0);
    }
    Ok(res)
}

} // verus!
