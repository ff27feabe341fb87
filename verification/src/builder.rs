//! The transaction builder: assembling a transaction request against the
//! local view into an executable witness.
//!
//! A request enumerates output notes to create, input notes to consume —
//! authenticated consumption needs the note synced from chain, while
//! unauthenticated consumption speculatively trusts a locally expected note —
//! an optional custom script, and the foreign-account reads the script needs.
//! Building resolves everything against one store snapshot; nothing is
//! submitted or mutated.
use vstd::prelude::*;
use crate::account::{AccountRecord, AccountRecordV, spec_get_item, spec_get_map_item, vault_wf};
use crate::note::{NoteRecord, NoteRecordV, NoteRecipient, NoteRecipientV, spec_note_id};
use crate::seq_find::{lemma_find_idx, unique_by};
use crate::store::{Store, StoreV, by_account, spec_account, spec_note};
use crate::types::{AccountId, Asset, EngineError, NoteMetadata, NoteStatus, Word4, copy_vec};

verus! {

/// How an input note is consumed: authenticated consumption carries an
/// inclusion proof against synced chain state, so the note must be synced
/// and unconsumed; unauthenticated consumption also accepts a note the store
/// merely expects, trusting the local view without a proof.
#[derive(Clone, Copy, PartialEq, Eq, Structural, Debug)]
pub enum ConsumeMode {
    Authenticated,
    Unauthenticated,
}

/// A custom transaction script, compiled outside the engine: the commitment
/// of its code, its arguments, the procedure commitments it calls, and the
/// scalar storage writes it performs.
pub struct ScriptSpec {
    pub root: Word4,
    pub args: Vec<u64>,
    pub calls: Vec<Word4>,
    pub storage_writes: Vec<(u64, Word4)>,
}

/// Mathematical view of [`ScriptSpec`].
#[verifier::ext_equal]
pub struct ScriptSpecV {
    pub root: Word4,
    pub args: Seq<u64>,
    pub calls: Seq<Word4>,
    pub storage_writes: Seq<(u64, Word4)>,
}

impl View for ScriptSpec {
    type V = ScriptSpecV;

    open spec fn view(&self) -> ScriptSpecV {
        ScriptSpecV {
            root: self.root,
            args: self.args@,
            calls: self.calls@,
            storage_writes: self.storage_writes@,
        }
    }
}

impl ScriptSpec {
    /// Copies the script.
    pub fn duplicate(&self) -> (r: Self)
        ensures
            r@ == self@,
    {
        let r = ScriptSpec {
            root: self.root,
            args: copy_vec(&self.args),
            calls: copy_vec(&self.calls),
            storage_writes: copy_vec(&self.storage_writes),
        };
        proof {
            assert(r@ =~= self@);
        }
        r
    }
}

/// An output note to create: its contents, with the serial number threaded
/// in explicitly so that construction is deterministic.
pub struct NoteTemplate {
    pub assets: Vec<Asset>,
    pub metadata: NoteMetadata,
    pub recipient: NoteRecipient,
}

/// Mathematical view of [`NoteTemplate`].
#[verifier::ext_equal]
pub struct NoteTemplateV {
    pub assets: Seq<Asset>,
    pub metadata: NoteMetadata,
    pub recipient: NoteRecipientV,
}

impl View for NoteTemplate {
    type V = NoteTemplateV;

    open spec fn view(&self) -> NoteTemplateV {
        NoteTemplateV { assets: self.assets@, metadata: self.metadata, recipient: self.recipient@ }
    }
}

/// One foreign-account read: a scalar slot, or one key of a map slot, of
/// another account's storage.
#[derive(Clone, Copy, PartialEq, Eq, Structural, Debug)]
pub struct ForeignRead {
    pub account: AccountId,
    pub slot_index: u8,
    pub map_key: Option<Word4>,
}

/// A resolved foreign read: the requested slot and what the local snapshot
/// holds there.
#[derive(Clone, Copy, PartialEq, Eq, Structural, Debug)]
pub struct ForeignValue {
    pub read: ForeignRead,
    pub value: Option<Word4>,
}

/// A transaction request: what to create, what to consume, what to run.
pub struct TransactionSpec {
    pub output_notes: Vec<NoteTemplate>,
    pub input_notes: Vec<(u64, ConsumeMode)>,
    pub script: Option<ScriptSpec>,
    pub foreign_reads: Vec<ForeignRead>,
}

/// Mathematical view of [`TransactionSpec`].
#[verifier::ext_equal]
pub struct TransactionSpecV {
    pub output_notes: Seq<NoteTemplateV>,
    pub input_notes: Seq<(u64, ConsumeMode)>,
    pub script: Option<ScriptSpecV>,
    pub foreign_reads: Seq<ForeignRead>,
}

impl View for TransactionSpec {
    type V = TransactionSpecV;

    open spec fn view(&self) -> TransactionSpecV {
        TransactionSpecV {
            output_notes: self.output_notes@.map_values(|t: NoteTemplate| t@),
            input_notes: self.input_notes@,
            script: match self.script {
                Some(ref s) => Some(s@),
                None => None,
            },
            foreign_reads: self.foreign_reads@,
        }
    }
}

/// An executable witness: everything execution needs, snapshotted from one
/// store state.
pub struct TransactionWitness {
    /// Snapshot of the account the transaction runs against.
    pub account: AccountRecord,
    /// The resolved input notes, in request order.
    pub input_notes: Vec<NoteRecord>,
    /// The constructed output notes, ids computed, not yet on chain.
    pub output_notes: Vec<NoteRecord>,
    /// The custom script, if any.
    pub script: Option<ScriptSpec>,
    /// The resolved foreign-account reads.
    pub foreign_values: Vec<ForeignValue>,
    /// Whether the key store authorized this transaction with a signature.
    pub authorized: bool,
}

/// Mathematical view of [`TransactionWitness`].
#[verifier::ext_equal]
pub struct TransactionWitnessV {
    pub account: AccountRecordV,
    pub input_notes: Seq<NoteRecordV>,
    pub output_notes: Seq<NoteRecordV>,
    pub script: Option<ScriptSpecV>,
    pub foreign_values: Seq<ForeignValue>,
    pub authorized: bool,
}

impl View for TransactionWitness {
    type V = TransactionWitnessV;

    open spec fn view(&self) -> TransactionWitnessV {
        TransactionWitnessV {
            account: self.account@,
            input_notes: self.input_notes@.map_values(|n: NoteRecord| n@),
            output_notes: self.output_notes@.map_values(|n: NoteRecord| n@),
            script: match self.script {
                Some(ref s) => Some(s@),
                None => None,
            },
            foreign_values: self.foreign_values@,
            authorized: self.authorized,
        }
    }
}

/// Key of an input entry: the note id it consumes.
pub open spec fn input_key() -> spec_fn((u64, ConsumeMode)) -> u64 {
    |e: (u64, ConsumeMode)| e.0
}

/// Whether one input entry can be consumed from this snapshot: the note is
/// tracked, and its status fits the consumption mode.
pub open spec fn spec_input_ok(s: StoreV, entry: (u64, ConsumeMode)) -> bool {
    match spec_note(s, entry.0) {
        Some(n) => match entry.1 {
            ConsumeMode::Authenticated => n.status == NoteStatus::Unconsumed,
            ConsumeMode::Unauthenticated => n.status == NoteStatus::Unconsumed || n.status
                == NoteStatus::Expected,
        },
        None => false,
    }
}

/// What a foreign read resolves to in this snapshot.
pub open spec fn spec_foreign_value(s: StoreV, r: ForeignRead) -> Option<Word4> {
    match spec_account(s, r.account) {
        Some(a) => match r.map_key {
            None => spec_get_item(a.storage, r.slot_index as int),
            Some(k) => spec_get_map_item(a.storage, r.slot_index as int, k),
        },
        None => None,
    }
}

/// The note a template builds: id computed from the contents, not yet on
/// chain.
pub open spec fn spec_built_note(t: NoteTemplateV) -> NoteRecordV {
    NoteRecordV {
        id: spec_note_id(t.assets, t.metadata, t.recipient),
        assets: t.assets,
        metadata: t.metadata,
        recipient: t.recipient,
        status: NoteStatus::Expected,
    }
}

/// When a request can be built against a snapshot: the account is tracked
/// and can still advance its nonce, every input note is consumable under its
/// mode, no note id is consumed or created twice — a note is consumed and
/// created exactly once — and every foreign account is tracked.
pub open spec fn spec_buildable(s: StoreV, account_id: AccountId, spec: TransactionSpecV) -> bool {
    &&& spec_account(s, account_id) is Some
    &&& spec_account(s, account_id)->Some_0.nonce < u64::MAX
    &&& unique_by(spec.input_notes, input_key())
    &&& forall|k: int|
        0 <= k < spec.input_notes.len() ==> spec_input_ok(s, #[trigger] spec.input_notes[k])
    &&& forall|a: int, b: int|
        0 <= a < b < spec.output_notes.len() ==> spec_built_note(
            #[trigger] spec.output_notes[a],
        ).id != spec_built_note(#[trigger] spec.output_notes[b]).id
    &&& forall|a: int, b: int|
        0 <= a < spec.output_notes.len() && 0 <= b < spec.input_notes.len() ==> spec_built_note(
            #[trigger] spec.output_notes[a],
        ).id != (#[trigger] spec.input_notes[b]).0
    &&& forall|k: int|
        0 <= k < spec.foreign_reads.len() ==> spec_account(
            s,
            (#[trigger] spec.foreign_reads[k]).account,
        ) is Some
}

/// The relation between a built witness and the snapshot and request it was
/// built from. It determines the witness completely: see
/// [`lemma_build_functional`].
pub open spec fn build_ok(
    s: StoreV,
    account_id: AccountId,
    spec: TransactionSpecV,
    authorized: bool,
    w: TransactionWitnessV,
) -> bool {
    &&& Some(w.account) == spec_account(s, account_id)
    &&& w.input_notes.len() == spec.input_notes.len()
    &&& forall|k: int|
        0 <= k < spec.input_notes.len() ==> Some(#[trigger] w.input_notes[k]) == spec_note(
            s,
            spec.input_notes[k].0,
        )
    &&& w.output_notes.len() == spec.output_notes.len()
    &&& forall|k: int|
        0 <= k < spec.output_notes.len() ==> #[trigger] w.output_notes[k] == spec_built_note(
            spec.output_notes[k],
        )
    &&& w.script == spec.script
    &&& w.foreign_values.len() == spec.foreign_reads.len()
    &&& forall|k: int|
        0 <= k < spec.foreign_reads.len() ==> (#[trigger] w.foreign_values[k]).read
            == spec.foreign_reads[k] && w.foreign_values[k].value == spec_foreign_value(
            s,
            spec.foreign_reads[k],
        )
    &&& w.authorized == authorized
}

/// Building is a function of the snapshot and the request: two witnesses
/// built from the same store state, request and authorization are equal.
/// With [`crate::executor::lemma_execute_deterministic`] this makes
/// execute-after-build idempotent: repeating it against an unchanged store
/// yields identical results.
pub proof fn lemma_build_functional(
    s: StoreV,
    account_id: AccountId,
    spec: TransactionSpecV,
    authorized: bool,
    w1: TransactionWitnessV,
    w2: TransactionWitnessV,
)
    requires
        build_ok(s, account_id, spec, authorized, w1),
        build_ok(s, account_id, spec, authorized, w2),
    ensures
        w1 == w2,
{
    assert(w1.input_notes =~= w2.input_notes);
    assert(w1.output_notes =~= w2.output_notes);
    assert(w1.foreign_values =~= w2.foreign_values);
    assert(w1 =~= w2);
}

/// Builds a witness for the request against the current snapshot.
///
/// Succeeds exactly when the request is buildable: the account and every
/// foreign account are tracked (`NotFound` otherwise), the account's nonce
/// can advance, no note id is consumed or created twice, the outputs do not
/// recreate a consumed note, and every input note's status fits its
/// consumption mode (`ScriptFailure` otherwise). Nothing in the store
/// changes.
pub fn build(
    store: &Store,
    account_id: AccountId,
    spec: &TransactionSpec,
    authorized: bool,
) -> (r: Result<TransactionWitness, EngineError>)
    requires
        store@.wf(),
    ensures
        (r is Ok) == spec_buildable(store@, account_id, spec@),
        match r {
            Ok(w) => build_ok(store@, account_id, spec@, authorized, w@) && vault_wf(
                w@.account.vault,
            ),
            Err(e) => {
                &&& (e == EngineError::NotFound || e == EngineError::ScriptFailure)
                &&& e == EngineError::NotFound ==> {
                    ||| spec_account(store@, account_id) is None
                    ||| (exists|k: int|
                        0 <= k < spec@.input_notes.len() && spec_note(
                            store@,
                            (#[trigger] spec@.input_notes[k]).0,
                        ) is None)
                    ||| (exists|k: int|
                        0 <= k < spec@.foreign_reads.len() && spec_account(
                            store@,
                            (#[trigger] spec@.foreign_reads[k]).account,
                        ) is None)
                }
                &&& e == EngineError::ScriptFailure ==> (spec_account(store@, account_id) is Some)
            },
        },
{
    let account = match store.get_account(account_id) {
        Some(a) => a,
        None => {
            return Err(EngineError::NotFound);
        },
    };
    proof {
        lemma_find_idx(store@.accounts, by_account(account_id));
        let fi = crate::seq_find::find_idx(store@.accounts, by_account(account_id));
        assert(by_account(account_id)(store@.accounts[fi]));
        assert(store@.wf());
    }
    if account.nonce == u64::MAX {
        return Err(EngineError::ScriptFailure);
    }

    // Resolve the input notes under their consumption modes.
    let mut input_notes: Vec<NoteRecord> = Vec::new();
    let mut i: usize = 0;
    while i < spec.input_notes.len()
        invariant
            store@.wf(),
            spec_account(store@, account_id) is Some,
            spec_account(store@, account_id)->Some_0.nonce < u64::MAX,
            0 <= i <= spec.input_notes@.len(),
            spec@.input_notes == spec.input_notes@,
            input_notes@.len() == i as int,
            forall|k: int|
                0 <= k < i ==> Some((#[trigger] input_notes@[k])@) == spec_note(
                    store@,
                    spec@.input_notes[k].0,
                ),
            forall|k: int| 0 <= k < i ==> spec_input_ok(store@, #[trigger] spec@.input_notes[k]),
            forall|a: int, b: int|
                0 <= a < b < i ==> (#[trigger] spec@.input_notes[a]).0
                    != (#[trigger] spec@.input_notes[b]).0,
        decreases spec.input_notes@.len() - i,
    {
        let (id, mode) = spec.input_notes[i];
        // A note may be consumed exactly once: reject a repeated input.
        let mut j: usize = 0;
        while j < i
            invariant
                0 <= j <= i,
                i < spec.input_notes@.len(),
                spec_account(store@, account_id) is Some,
                spec@.input_notes == spec.input_notes@,
                id == spec@.input_notes[i as int].0,
                forall|k: int| 0 <= k < j ==> (#[trigger] spec@.input_notes[k]).0 != id,
            decreases i - j,
        {
            if spec.input_notes[j].0 == id {
                proof {
                    assert(input_key()(spec@.input_notes[j as int]) == input_key()(
                        spec@.input_notes[i as int],
                    ));
                    assert(!unique_by(spec@.input_notes, input_key()));
                }
                return Err(EngineError::ScriptFailure);
            }
            j = j + 1;
        }
        let n = match store.get_note(id) {
            Some(n) => n,
            None => {
                proof {
                    assert(spec_note(store@, spec@.input_notes[i as int].0) is None);
                }
                return Err(EngineError::NotFound);
            },
        };
        let status_ok = match (mode, &n.status) {
            (ConsumeMode::Authenticated, NoteStatus::Unconsumed) => true,
            (ConsumeMode::Unauthenticated, NoteStatus::Unconsumed) => true,
            (ConsumeMode::Unauthenticated, NoteStatus::Expected) => true,
            _ => false,
        };
        if !status_ok {
            proof {
                assert(!spec_input_ok(store@, spec@.input_notes[i as int]));
            }
            return Err(EngineError::ScriptFailure);
        }
        input_notes.push(n);
        i = i + 1;
    }

    // Construct the output notes from their templates.
    let mut output_notes: Vec<NoteRecord> = Vec::new();
    let mut j: usize = 0;
    while j < spec.output_notes.len()
        invariant
            0 <= j <= spec.output_notes@.len(),
            spec_account(store@, account_id) is Some,
            spec@.input_notes == spec.input_notes@,
            spec@.output_notes.len() == spec.output_notes@.len(),
            forall|k: int|
                0 <= k < spec.output_notes@.len() ==> #[trigger] spec@.output_notes[k]
                    == spec.output_notes@[k]@,
            output_notes@.len() == j as int,
            forall|k: int|
                0 <= k < j ==> (#[trigger] output_notes@[k])@ == spec_built_note(
                    spec@.output_notes[k],
                ),
            forall|a: int, b: int|
                0 <= a < b < j ==> spec_built_note(#[trigger] spec@.output_notes[a]).id
                    != spec_built_note(#[trigger] spec@.output_notes[b]).id,
            forall|a: int, b: int|
                0 <= a < j && 0 <= b < spec.input_notes@.len() ==> spec_built_note(
                    #[trigger] spec@.output_notes[a],
                ).id != (#[trigger] spec@.input_notes[b]).0,
        decreases spec.output_notes@.len() - j,
    {
        let t = &spec.output_notes[j];
        let built = NoteRecord::new(
            copy_vec(&t.assets),
            t.metadata,
            t.recipient.duplicate(),
            NoteStatus::Expected,
        );
        proof {
            assert(built@ =~= spec_built_note(spec@.output_notes[j as int]));
        }
        // A note is created exactly once: reject an output that repeats an
        // earlier output's id.
        let mut d: usize = 0;
        while d < output_notes.len()
            invariant
                0 <= d <= output_notes@.len(),
                output_notes@.len() == j as int,
                j < spec.output_notes@.len(),
                spec_account(store@, account_id) is Some,
                spec@.output_notes.len() == spec.output_notes@.len(),
                forall|k: int|
                    0 <= k < j ==> (#[trigger] output_notes@[k])@ == spec_built_note(
                        spec@.output_notes[k],
                    ),
                built.id == spec_built_note(spec@.output_notes[j as int]).id,
                forall|k: int|
                    0 <= k < d ==> spec_built_note(#[trigger] spec@.output_notes[k]).id
                        != built.id,
            decreases output_notes@.len() - d,
        {
            if output_notes[d].id == built.id {
                proof {
                    assert(spec_built_note(spec@.output_notes[d as int]).id == spec_built_note(
                        spec@.output_notes[j as int],
                    ).id);
                }
                return Err(EngineError::ScriptFailure);
            }
            d = d + 1;
        }
        // ...and one that recreates a note this transaction consumes.
        let mut c: usize = 0;
        while c < spec.input_notes.len()
            invariant
                0 <= c <= spec.input_notes@.len(),
                j < spec.output_notes@.len(),
                spec_account(store@, account_id) is Some,
                spec@.input_notes == spec.input_notes@,
                spec@.output_notes.len() == spec.output_notes@.len(),
                built.id == spec_built_note(spec@.output_notes[j as int]).id,
                forall|k: int|
                    0 <= k < c ==> (#[trigger] spec@.input_notes[k]).0 != built.id,
            decreases spec.input_notes@.len() - c,
        {
            if spec.input_notes[c].0 == built.id {
                proof {
                    assert(spec_built_note(spec@.output_notes[j as int]).id
                        == spec@.input_notes[c as int].0);
                }
                return Err(EngineError::ScriptFailure);
            }
            c = c + 1;
        }
        output_notes.push(built);
        j = j + 1;
    }

    // Resolve the foreign-account reads against the snapshot.
    let mut foreign_values: Vec<ForeignValue> = Vec::new();
    let mut m: usize = 0;
    while m < spec.foreign_reads.len()
        invariant
            store@.wf(),
            spec_account(store@, account_id) is Some,
            spec_account(store@, account_id)->Some_0.nonce < u64::MAX,
            0 <= m <= spec.foreign_reads@.len(),
            spec@.foreign_reads == spec.foreign_reads@,
            foreign_values@.len() == m as int,
            forall|k: int|
                0 <= k < m ==> (#[trigger] foreign_values@[k]).read == spec@.foreign_reads[k]
                    && foreign_values@[k].value == spec_foreign_value(
                    store@,
                    spec@.foreign_reads[k],
                ),
            forall|k: int|
                0 <= k < m ==> spec_account(
                    store@,
                    (#[trigger] spec@.foreign_reads[k]).account,
                ) is Some,
        decreases spec.foreign_reads@.len() - m,
    {
        let fr = spec.foreign_reads[m];
        let fa = match store.get_account(fr.account) {
            Some(a) => a,
            None => {
                proof {
                    assert(spec_account(
                        store@,
                        (spec@.foreign_reads[m as int]).account,
                    ) is None);
                }
                return Err(EngineError::NotFound);
            },
        };
        let value = match fr.map_key {
            None => fa.get_item(fr.slot_index as usize),
            Some(k) => fa.get_map_item(fr.slot_index as usize, k),
        };
        foreign_values.push(ForeignValue { read: fr, value });
        m = m + 1;
    }

    let script = match &spec.script {
        Some(s) => Some(s.duplicate()),
        None => None,
    };
    let w = TransactionWitness {
        account,
        input_notes,
        output_notes,
        script,
        foreign_values,
        authorized,
    };
    proof {
        assert(unique_by(spec@.input_notes, input_key()));
        assert(build_ok(store@, account_id, spec@, authorized, w@));
    }
    Ok(w)
}

} // verus!
