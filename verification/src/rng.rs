//! Randomness at the engine's edge: account seeds and note serial numbers.
//!
//! Construction in the engine is deterministic — ids and serial numbers are
//! explicit parameters everywhere — and the draws below are the one place
//! fresh values come from. Nothing can be promised of a random value, so the
//! trusted wrappers promise nothing; everything built from a draw is
//! verified for every value the draw could take.
use vstd::prelude::*;
use crate::account::{AccountRecord, StorageSlot, vault_wf};
use crate::digest::{digest_words, spec_digest};
use crate::note::NoteRecipient;
use crate::store::{Store, spec_account};
use crate::types::{AccountId, AccountVisibility, Word4};

verus! {

/// Relies on rand::random: one word from the thread-local generator. The
/// value depends on the generator's state, so nothing is promised of it.
#[verifier::external_body]
fn random_word() -> u64 {
    rand::random::<u64>()
}

/// Relies on rand::random: a fresh 32-byte init seed from the thread-local
/// generator. The value depends on the generator's state, so nothing is
/// promised of it.
#[verifier::external_body]
fn random_seed() -> [u8; 32] {
    rand::random::<[u8; 32]>()
}

/// The words of a seed, one byte per word.
pub open spec fn spec_seed_words(s: Seq<u8>) -> Seq<u64> {
    Seq::new(s.len(), |i: int| s[i] as u64)
}

/// The account id derived from an init seed: one digest per half.
pub open spec fn spec_account_id_from_seed(s: Seq<u8>) -> AccountId {
    AccountId {
        prefix: spec_digest(spec_seed_words(s)),
        suffix: spec_digest(spec_seed_words(s).push(1u64)),
    }
}

/// Derives an account id from an init seed, deterministically.
pub fn account_id_from_seed(seed: &[u8; 32]) -> (id: AccountId)
    ensures
        id == spec_account_id_from_seed(seed@),
{
    let mut ws: Vec<u64> = Vec::new();
    let mut i: usize = 0;
    while i < 32
        invariant
            0 <= i <= 32,
            seed@.len() == 32,
            ws@ =~= spec_seed_words(seed@).take(i as int),
        decreases 32 - i,
    {
        ws.push(seed[i] as u64);
        proof {
            assert(spec_seed_words(seed@).take(i as int + 1) =~= spec_seed_words(seed@).take(
                i as int,
            ).push(seed@[i as int] as u64));
        }
        i = i + 1;
    }
    proof {
        assert(spec_seed_words(seed@).take(32) =~= spec_seed_words(seed@));
    }
    let prefix = digest_words(&ws);
    ws.push(1u64);
    let suffix = digest_words(&ws);
    AccountId { prefix, suffix }
}

/// Creates a basic wallet account — a regular account with updatable code,
/// public storage, a fresh nonce and an empty vault — under a fresh random
/// seed, and adds it to the store. Mirrors how a new wallet enters the
/// client: the record is valid whatever the seed turned out to be.
pub fn create_basic_account(store: &mut Store, code_commitment: Word4) -> (a: AccountRecord)
    requires
        old(store)@.wf(),
    ensures
        final(store)@.wf(),
        a@.nonce == 0,
        a@.storage.len() == 0,
        a@.vault.len() == 0,
        a@.code_commitment == code_commitment,
        a@.updatable_code == true,
        a@.visibility == AccountVisibility::Public,
        a@.is_faucet == false,
        a@.accepts_open_notes == false,
        a@.protected_procedures.len() == 0,
        spec_account(final(store)@, a.id) == Some(a@),
        forall|x: AccountId|
            x != a.id ==> spec_account(final(store)@, x) == spec_account(old(store)@, x),
        final(store)@.notes == old(store)@.notes,
        final(store)@.transactions == old(store)@.transactions,
        final(store)@.checkpoint == old(store)@.checkpoint,
{
    let seed = random_seed();
    let id = account_id_from_seed(&seed);
    let a = AccountRecord {
        id,
        nonce: 0,
        storage: Vec::new(),
        vault: Vec::new(),
        code_commitment,
        updatable_code: true,
        visibility: AccountVisibility::Public,
        is_faucet: false,
        accepts_open_notes: false,
        protected_procedures: Vec::new(),
    };
    let record = a.duplicate();
    proof {
        assert(vault_wf(a@.vault));
    }
    store.upsert_account(record);
    a
}

/// Creates a fungible-asset faucet — an immutable public account that issues
/// its own asset, its token metadata in storage slot zero — under a fresh
/// random seed, and adds it to the store.
pub fn create_basic_faucet(
    store: &mut Store,
    code_commitment: Word4,
    symbol: u64,
    decimals: u64,
    max_supply: u64,
) -> (a: AccountRecord)
    requires
        old(store)@.wf(),
    ensures
        final(store)@.wf(),
        a@.nonce == 0,
        a@.storage =~= seq![
            crate::account::StorageSlotV::Value(
                Word4 { e0: max_supply, e1: decimals, e2: symbol, e3: 0u64 },
            ),
        ],
        a@.vault.len() == 0,
        a@.code_commitment == code_commitment,
        a@.updatable_code == false,
        a@.visibility == AccountVisibility::Public,
        a@.is_faucet == true,
        a@.accepts_open_notes == false,
        a@.protected_procedures.len() == 0,
        spec_account(final(store)@, a.id) == Some(a@),
        forall|x: AccountId|
            x != a.id ==> spec_account(final(store)@, x) == spec_account(old(store)@, x),
        final(store)@.notes == old(store)@.notes,
        final(store)@.transactions == old(store)@.transactions,
        final(store)@.checkpoint == old(store)@.checkpoint,
{
    let seed = random_seed();
    let id = account_id_from_seed(&seed);
    let mut storage: Vec<StorageSlot> = Vec::new();
    storage.push(StorageSlot::Value(Word4 { e0: max_supply, e1: decimals, e2: symbol, e3: 0 }));
    let a = AccountRecord {
        id,
        nonce: 0,
        storage,
        vault: Vec::new(),
        code_commitment,
        updatable_code: false,
        visibility: AccountVisibility::Public,
        is_faucet: true,
        accepts_open_notes: false,
        protected_procedures: Vec::new(),
    };
    let record = a.duplicate();
    proof {
        assert(vault_wf(a@.vault));
    }
    store.upsert_account(record);
    a
}

/// Builds a note recipient under a fresh random serial number: the script
/// commitment and inputs are as given, and the recipient is valid whatever
/// serial number was drawn.
pub fn fresh_recipient(script_root: Word4, inputs: Vec<u64>) -> (r: NoteRecipient)
    ensures
        r@.script_root == script_root,
        r@.inputs == inputs@,
{
    let serial_num = random_word();
    NoteRecipient { serial_num, script_root, inputs }
}

} // verus!
