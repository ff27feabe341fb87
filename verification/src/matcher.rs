//! The note matcher: which stored notes a given account may consume, and
//! with what relevance.
//!
//! A note is consumable for an account when it is unconsumed and either the
//! account is its explicit routing target (the tag matches the account) or
//! the note is public and the account's authorization component accepts
//! notes not routed to it. Results come in store order, so they are the same
//! for the same store snapshot.
use vstd::prelude::*;
use crate::account::AccountRecordV;
use crate::note::{NoteRecord, NoteRecordV, spec_tag_for_account, tag_for_account};
use crate::seq_find::{find_idx, lemma_find_idx};
use crate::store::{Store, StoreV, by_note, note_key, spec_account, spec_note};
use crate::types::{AccountId, EngineError, ExecutionHint, NoteKind, NoteStatus};

verus! {

/// Tie-break signal for a consumable note: consumable right now, or only
/// once the chain reaches a height.
#[derive(Clone, Copy, PartialEq, Eq, Structural, Debug)]
pub enum NoteRelevance {
    Now,
    After { block: u32 },
}

/// Whether the routing rules let the account consume the note, regardless of
/// the note's status: the account is the tag's target, or the note is open
/// to public consumption and the account accepts that.
pub open spec fn spec_note_matches(n: NoteRecordV, acct: AccountRecordV) -> bool {
    ||| n.metadata.tag == spec_tag_for_account(acct.id)
    ||| (n.metadata.kind == NoteKind::Public && acct.accepts_open_notes)
}

/// A note is consumable by an account when it is unconsumed and the routing
/// rules match.
pub open spec fn spec_consumable(n: NoteRecordV, acct: AccountRecordV) -> bool {
    n.status == NoteStatus::Unconsumed && spec_note_matches(n, acct)
}

/// Relevance of a note at the given sync height, derived from its execution
/// hint.
pub open spec fn spec_relevance(n: NoteRecordV, height: u32) -> NoteRelevance {
    match n.metadata.hint {
        ExecutionHint::Always => NoteRelevance::Now,
        ExecutionHint::AfterBlock { height: h } => if height >= h {
            NoteRelevance::Now
        } else {
            NoteRelevance::After { block: h }
        },
    }
}

/// The consumable notes of a note table for one account, in table order,
/// each with its relevance at the given height.
pub open spec fn spec_consumable_notes(
    notes: Seq<NoteRecordV>,
    acct: AccountRecordV,
    height: u32,
) -> Seq<(NoteRecordV, NoteRelevance)>
    decreases notes.len(),
{
    if notes.len() == 0 {
        Seq::empty()
    } else {
        let rest = spec_consumable_notes(notes.drop_last(), acct, height);
        if spec_consumable(notes.last(), acct) {
            rest.push((notes.last(), spec_relevance(notes.last(), height)))
        } else {
            rest
        }
    }
}

/// Views of a list of matched notes.
pub open spec fn pair_views(s: Seq<(NoteRecord, NoteRelevance)>) -> Seq<(NoteRecordV, NoteRelevance)> {
    s.map_values(|p: (NoteRecord, NoteRelevance)| (p.0@, p.1))
}

/// Lists the notes the account may consume, with their relevance at the
/// current checkpoint height. Fails with `NotFound` exactly when the store
/// does not track the account; the result is determined by the store
/// snapshot alone, in store order.
pub fn consumable_notes(store: &Store, account_id: AccountId) -> (r: Result<
    Vec<(NoteRecord, NoteRelevance)>,
    EngineError,
>)
    ensures
        match r {
            Ok(v) => spec_account(store@, account_id) is Some && pair_views(v@)
                == spec_consumable_notes(
                store@.notes,
                spec_account(store@, account_id)->Some_0,
                store@.checkpoint.block_num,
            ),
            Err(e) => e == EngineError::NotFound && spec_account(store@, account_id) is None,
        },
{
    let acct = match store.get_account(account_id) {
        Some(a) => a,
        None => {
            return Err(EngineError::NotFound);
        },
    };
    let height = store.checkpoint.block_num;
    let tag = tag_for_account(acct.id);
    proof {
        lemma_find_idx(store@.accounts, crate::store::by_account(account_id));
    }
    let mut out: Vec<(NoteRecord, NoteRelevance)> = Vec::new();
    let mut i: usize = 0;
    while i < store.notes.len()
        invariant
            0 <= i <= store.notes@.len(),
            store@.notes.len() == store.notes@.len(),
            forall|k: int|
                0 <= k < store.notes@.len() ==> #[trigger] store@.notes[k] == store.notes@[k]@,
            height == store@.checkpoint.block_num,
            tag == spec_tag_for_account(acct@.id),
            pair_views(out@) =~= spec_consumable_notes(
                store@.notes.take(i as int),
                acct@,
                height,
            ),
        decreases store.notes@.len() - i,
    {
        let n = &store.notes[i];
        let consumable = match n.status {
            NoteStatus::Unconsumed => {
                if n.metadata.tag == tag {
                    true
                } else {
                    match n.metadata.kind {
                        NoteKind::Public => acct.accepts_open_notes,
                        NoteKind::Private => false,
                    }
                }
            },
            _ => false,
        };
        proof {
            let t = store@.notes.take(i as int + 1);
            assert(t.drop_last() =~= store@.notes.take(i as int));
            assert(t.last() == store@.notes[i as int]);
            assert(consumable == spec_consumable(store@.notes[i as int], acct@));
        }
        if consumable {
            let relevance = match n.metadata.hint {
                ExecutionHint::Always => NoteRelevance::Now,
                ExecutionHint::AfterBlock { height: h } => {
                    if height >= h {
                        NoteRelevance::Now
                    } else {
                        NoteRelevance::After { block: h }
                    }
                },
            };
            let d = n.duplicate();
            let ghost prev = out@;
            out.push((d, relevance));
            proof {
                assert(relevance == spec_relevance(store@.notes[i as int], height));
                assert(pair_views(out@) =~= pair_views(prev).push(
                    (store@.notes[i as int], spec_relevance(store@.notes[i as int], height)),
                ));
            }
        }
        i = i + 1;
    }
    proof {
        assert(store@.notes.take(store@.notes.len() as int) =~= store@.notes);
    }
    Ok(out)
}

/// The given item is one of the table's notes, consumable by the account,
/// paired with its relevance at the given height.
pub open spec fn offered_from(
    notes: Seq<NoteRecordV>,
    acct: AccountRecordV,
    height: u32,
    item: (NoteRecordV, NoteRelevance),
) -> bool {
    exists|k: int|
        0 <= k < notes.len() && item == ((#[trigger] notes[k]), spec_relevance(notes[k], height))
            && spec_consumable(notes[k], acct)
}

/// Everything the matcher offers is an unconsumed note of the table, with
/// its relevance at the given height.
pub proof fn lemma_consumable_notes_sound(notes: Seq<NoteRecordV>, acct: AccountRecordV, height: u32)
    ensures
        forall|j: int|
            0 <= j < spec_consumable_notes(notes, acct, height).len() ==> offered_from(
                notes,
                acct,
                height,
                #[trigger] spec_consumable_notes(notes, acct, height)[j],
            ),
    decreases notes.len(),
{
    if notes.len() == 0 {
    } else {
        let rest = spec_consumable_notes(notes.drop_last(), acct, height);
        lemma_consumable_notes_sound(notes.drop_last(), acct, height);
        assert forall|j: int|
            0 <= j < spec_consumable_notes(notes, acct, height).len() implies offered_from(
            notes,
            acct,
            height,
            #[trigger] spec_consumable_notes(notes, acct, height)[j],
        ) by {
            let item = spec_consumable_notes(notes, acct, height)[j];
            if j < rest.len() {
                assert(offered_from(notes.drop_last(), acct, height, rest[j]));
                let k = choose|k: int|
                    0 <= k < notes.drop_last().len() && rest[j] == (
                    (#[trigger] notes.drop_last()[k]),
                    spec_relevance(notes.drop_last()[k], height),
                ) && spec_consumable(notes.drop_last()[k], acct);
                assert(notes.drop_last()[k] == notes[k]);
                assert(item == rest[j]);
                assert(0 <= k < notes.len() && item == (
                    notes[k],
                    spec_relevance(notes[k], height),
                ) && spec_consumable(notes[k], acct));
            } else {
                let k = notes.len() - 1;
                assert(spec_consumable(notes.last(), acct));
                assert(0 <= k < notes.len() && item == (
                    notes[k],
                    spec_relevance(notes[k], height),
                ) && spec_consumable(notes[k], acct));
            }
        }
    }
}

/// Every consumable note of the table is offered, with its relevance at the
/// given height: the matcher forgets nothing.
pub proof fn lemma_consumable_notes_complete(
    notes: Seq<NoteRecordV>,
    acct: AccountRecordV,
    height: u32,
    k: int,
)
    requires
        0 <= k < notes.len(),
        spec_consumable(notes[k], acct),
    ensures
        spec_consumable_notes(notes, acct, height).contains(
            (notes[k], spec_relevance(notes[k], height)),
        ),
    decreases notes.len(),
{
    let offered = spec_consumable_notes(notes, acct, height);
    let item = (notes[k], spec_relevance(notes[k], height));
    if k == notes.len() - 1 {
        assert(notes.last() == notes[k]);
        assert(offered.last() == item);
        assert(offered[offered.len() - 1] == item);
    } else {
        assert(notes.drop_last()[k] == notes[k]);
        lemma_consumable_notes_complete(notes.drop_last(), acct, height, k);
        let rest = spec_consumable_notes(notes.drop_last(), acct, height);
        let j = choose|j: int| 0 <= j < rest.len() && rest[j] == item;
        assert(offered[j] == item);
    }
}

/// No double consumption: a note whose store record is consumed — as it is
/// for every input of a committed transaction after sync — is offered by the
/// matcher to no account, whatever the height.
pub proof fn lemma_consumed_never_consumable(
    s: StoreV,
    id: u64,
    tx: u64,
    acct: AccountRecordV,
    height: u32,
)
    requires
        s.wf(),
        spec_note(s, id) is Some,
        spec_note(s, id)->Some_0.status == (NoteStatus::Consumed { by: tx }),
    ensures
        forall|j: int|
            0 <= j < spec_consumable_notes(s.notes, acct, height).len() ==> (
            #[trigger] spec_consumable_notes(s.notes, acct, height)[j]).0.id != id,
{
    lemma_consumable_notes_sound(s.notes, acct, height);
    lemma_find_idx(s.notes, by_note(id));
    let fi = find_idx(s.notes, by_note(id));
    assert(fi >= 0);
    assert(s.notes[fi] == spec_note(s, id)->Some_0);
    assert forall|j: int|
        0 <= j < spec_consumable_notes(s.notes, acct, height).len() implies (
        #[trigger] spec_consumable_notes(s.notes, acct, height)[j]).0.id != id by {
        let item = spec_consumable_notes(s.notes, acct, height)[j];
        assert(offered_from(s.notes, acct, height, item));
        let k = choose|k: int|
            0 <= k < s.notes.len() && item == (
            (#[trigger] s.notes[k]),
            spec_relevance(s.notes[k], height),
        ) && spec_consumable(s.notes[k], acct);
        if s.notes[k].id == id {
            if k != fi {
                assert(note_key()(s.notes[k]) == note_key()(s.notes[fi]));
                assert(false);
            }
            assert(s.notes[k].status == (NoteStatus::Consumed { by: tx }));
            assert(false);
        }
    }
}

/// No double consumption, stated against sync itself: once a sync delta has
/// reported a tracked note consumed by some transaction, the matcher offers
/// that note to no account, at any height.
pub proof fn lemma_synced_consumption_leaves_the_matcher(
    old: StoreV,
    new: StoreV,
    d: crate::sync::SyncDeltaV,
    id: u64,
    tx: u64,
    acct: AccountRecordV,
    height: u32,
)
    requires
        new.wf(),
        forall|x: u64| #[trigger] spec_note(new, x) == crate::sync::spec_synced_note(old, d, x),
        crate::seq_find::find_first(d.consumed, crate::sync::by_cons(id)) == Some((id, tx)),
        spec_note(new, id) is Some,
    ensures
        forall|j: int|
            0 <= j < spec_consumable_notes(new.notes, acct, height).len() ==> (
            #[trigger] spec_consumable_notes(new.notes, acct, height)[j]).0.id != id,
{
    assert(spec_note(new, id) == crate::sync::spec_synced_note(old, d, id));
    assert(spec_note(new, id)->Some_0.status == (NoteStatus::Consumed { by: tx }));
    lemma_consumed_never_consumable(new, id, tx, acct, height);
}

} // verus!
