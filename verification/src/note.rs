//! Note records: assets, metadata and recipient, with a deterministic
//! identity commitment over all three.
use vstd::prelude::*;
use crate::digest::{spec_digest, digest_words};
use crate::types::{AccountId, Asset, ExecutionHint, NoteKind, NoteMetadata, NoteStatus, Word4, copy_vec};

verus! {

/// The recipient half of a note: who may consume it and how. The serial
/// number distinguishes otherwise identical notes; the script root is the
/// commitment of the compiled recipient script; the inputs are its arguments.
pub struct NoteRecipient {
    pub serial_num: u64,
    pub script_root: Word4,
    pub inputs: Vec<u64>,
}

/// Mathematical view of [`NoteRecipient`].
#[verifier::ext_equal]
pub struct NoteRecipientV {
    pub serial_num: u64,
    pub script_root: Word4,
    pub inputs: Seq<u64>,
}

impl View for NoteRecipient {
    type V = NoteRecipientV;

    open spec fn view(&self) -> NoteRecipientV {
        NoteRecipientV { serial_num: self.serial_num, script_root: self.script_root, inputs: self.inputs@ }
    }
}

impl NoteRecipient {
    /// Copies the recipient.
    pub fn duplicate(&self) -> (r: Self)
        ensures
            r@ =~= self@,
    {
        NoteRecipient {
            serial_num: self.serial_num,
            script_root: self.script_root,
            inputs: copy_vec(&self.inputs),
        }
    }
}

/// A note in the local store: assets, metadata, recipient, the note's
/// identity commitment, and where it stands in its lifecycle.
pub struct NoteRecord {
    pub id: u64,
    pub assets: Vec<Asset>,
    pub metadata: NoteMetadata,
    pub recipient: NoteRecipient,
    pub status: NoteStatus,
}

/// Mathematical view of [`NoteRecord`].
#[verifier::ext_equal]
pub struct NoteRecordV {
    pub id: u64,
    pub assets: Seq<Asset>,
    pub metadata: NoteMetadata,
    pub recipient: NoteRecipientV,
    pub status: NoteStatus,
}

impl View for NoteRecord {
    type V = NoteRecordV;

    open spec fn view(&self) -> NoteRecordV {
        NoteRecordV {
            id: self.id,
            assets: self.assets@,
            metadata: self.metadata,
            recipient: self.recipient@,
            status: self.status,
        }
    }
}

/// Encoding of one asset as words.
pub open spec fn encode_asset(a: Asset) -> Seq<u64> {
    seq![a.faucet.prefix, a.faucet.suffix, a.amount]
}

/// Encoding of an asset list as words, length first.
pub open spec fn encode_assets(assets: Seq<Asset>) -> Seq<u64>
    decreases assets.len(),
{
    if assets.len() == 0 {
        seq![]
    } else {
        encode_assets(assets.drop_last()) + encode_asset(assets.last())
    }
}

/// Word encoding of a note kind.
pub open spec fn encode_kind(k: NoteKind) -> u64 {
    match k {
        NoteKind::Public => 0u64,
        NoteKind::Private => 1u64,
    }
}

/// Word encoding of an execution hint, as two words.
pub open spec fn encode_hint(h: ExecutionHint) -> Seq<u64> {
    match h {
        ExecutionHint::Always => seq![0u64, 0u64],
        ExecutionHint::AfterBlock { height } => seq![1u64, height as u64],
    }
}

/// Word encoding of note metadata.
pub open spec fn encode_metadata(m: NoteMetadata) -> Seq<u64> {
    seq![m.sender.prefix, m.sender.suffix, encode_kind(m.kind), m.tag] + encode_hint(m.hint)
        + seq![m.aux]
}

/// Word encoding of a note recipient, the input list length first.
pub open spec fn encode_recipient(r: NoteRecipientV) -> Seq<u64> {
    seq![
        r.serial_num,
        r.script_root.e0,
        r.script_root.e1,
        r.script_root.e2,
        r.script_root.e3,
        r.inputs.len() as u64,
    ] + r.inputs
}

/// Word encoding of a whole note's contents: assets, metadata, recipient.
pub open spec fn encode_note(assets: Seq<Asset>, m: NoteMetadata, r: NoteRecipientV) -> Seq<u64> {
    seq![assets.len() as u64] + encode_assets(assets) + encode_metadata(m) + encode_recipient(r)
}

/// Note identity: the deterministic digest of the note's full contents.
/// Equal assets, metadata and recipient give equal ids.
pub open spec fn spec_note_id(assets: Seq<Asset>, m: NoteMetadata, r: NoteRecipientV) -> u64 {
    spec_digest(encode_note(assets, m, r))
}

/// Computes the identity commitment of a note's contents.
pub fn note_id(assets: &Vec<Asset>, metadata: &NoteMetadata, recipient: &NoteRecipient) -> (id: u64)
    ensures
        id == spec_note_id(assets@, *metadata, recipient@),
{
    let mut ws: Vec<u64> = Vec::new();
    ws.push(assets.len() as u64);
    let mut i: usize = 0;
    while i < assets.len()
        invariant
            0 <= i <= assets@.len(),
            ws@ =~= seq![assets@.len() as u64] + encode_assets(assets@.take(i as int)),
        decreases assets@.len() - i,
    {
        let a = assets[i];
        ws.push(a.faucet.prefix);
        ws.push(a.faucet.suffix);
        ws.push(a.amount);
        proof {
            let t = assets@.take(i as int + 1);
            assert(t.drop_last() =~= assets@.take(i as int));
            assert(t.last() == assets@[i as int]);
        }
        i = i + 1;
    }
    proof {
        assert(assets@.take(assets@.len() as int) =~= assets@);
    }
    ws.push(metadata.sender.prefix);
    ws.push(metadata.sender.suffix);
    match metadata.kind {
        NoteKind::Public => ws.push(0u64),
        NoteKind::Private => ws.push(1u64),
    }
    ws.push(metadata.tag);
    match metadata.hint {
        ExecutionHint::Always => {
            ws.push(0u64);
            ws.push(0u64);
        },
        ExecutionHint::AfterBlock { height } => {
            ws.push(1u64);
            ws.push(height as u64);
        },
    }
    ws.push(metadata.aux);
    ws.push(recipient.serial_num);
    ws.push(recipient.script_root.e0);
    ws.push(recipient.script_root.e1);
    ws.push(recipient.script_root.e2);
    ws.push(recipient.script_root.e3);
    ws.push(recipient.inputs.len() as u64);
    let mut j: usize = 0;
    while j < recipient.inputs.len()
        invariant
            0 <= j <= recipient.inputs@.len(),
            ws@ =~= seq![assets@.len() as u64] + encode_assets(assets@) + encode_metadata(*metadata)
                + seq![
                recipient@.serial_num,
                recipient@.script_root.e0,
                recipient@.script_root.e1,
                recipient@.script_root.e2,
                recipient@.script_root.e3,
                recipient@.inputs.len() as u64,
            ] + recipient.inputs@.take(j as int),
        decreases recipient.inputs@.len() - j,
    {
        ws.push(recipient.inputs[j]);
        proof {
            assert(recipient.inputs@.take(j as int + 1) =~= recipient.inputs@.take(j as int).push(
                recipient.inputs@[j as int],
            ));
        }
        j = j + 1;
    }
    proof {
        assert(recipient.inputs@.take(recipient.inputs@.len() as int) =~= recipient.inputs@);
        assert(ws@ =~= encode_note(assets@, *metadata, recipient@));
    }
    digest_words(&ws)
}

impl NoteRecord {
    /// Whether the record's id is the commitment of its contents.
    pub open spec fn wf(self) -> bool {
        self.id == spec_note_id(self@.assets, self.metadata, self@.recipient)
    }

    /// Builds a note record with the given status; the id is computed from
    /// the contents, so construction is deterministic.
    pub fn new(assets: Vec<Asset>, metadata: NoteMetadata, recipient: NoteRecipient, status: NoteStatus) -> (n: NoteRecord)
        ensures
            n@.assets == assets@,
            n.metadata == metadata,
            n@.recipient == recipient@,
            n.status == status,
            n.id == spec_note_id(assets@, metadata, recipient@),
            n.wf(),
    {
        let id = note_id(&assets, &metadata, &recipient);
        NoteRecord { id, assets, metadata, recipient, status }
    }

    /// Copies the record.
    pub fn duplicate(&self) -> (r: Self)
        ensures
            r@ =~= self@,
    {
        NoteRecord {
            id: self.id,
            assets: copy_vec(&self.assets),
            metadata: self.metadata,
            recipient: self.recipient.duplicate(),
            status: self.status,
        }
    }
}

/// Views of a note list.
pub open spec fn note_views(s: Seq<NoteRecord>) -> Seq<NoteRecordV> {
    s.map_values(|n: NoteRecord| n@)
}

/// The routing tag that targets a given account: notes tagged this way are
/// routed to that account.
pub open spec fn spec_tag_for_account(id: AccountId) -> u64 {
    id.prefix
}

/// Computes the routing tag that targets the given account.
pub fn tag_for_account(id: AccountId) -> (t: u64)
    ensures
        t == spec_tag_for_account(id),
{
    id.prefix
}

} // verus!
