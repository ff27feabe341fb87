//! Account records: identity, nonce, ordered storage slots, asset vault and
//! code commitment, with the vault arithmetic used by the executor.
use vstd::prelude::*;
use crate::seq_find::{find_first, find_idx, lemma_find_idx, lemma_find_idx_push,
    lemma_find_idx_push_other, lemma_find_idx_update, lemma_find_idx_update_other, unique_by};
use crate::types::{AccountId, AccountVisibility, Asset, EngineError, Word4, copy_vec};

verus! {

/// One storage slot of an account: a scalar word or a key-to-word map.
pub enum StorageSlot {
    Value(Word4),
    Mapping(Vec<(Word4, Word4)>),
}

/// Mathematical view of [`StorageSlot`].
#[verifier::ext_equal]
pub enum StorageSlotV {
    Value(Word4),
    Mapping(Seq<(Word4, Word4)>),
}

impl View for StorageSlot {
    type V = StorageSlotV;

    open spec fn view(&self) -> StorageSlotV {
        match self {
            StorageSlot::Value(w) => StorageSlotV::Value(*w),
            StorageSlot::Mapping(entries) => StorageSlotV::Mapping(entries@),
        }
    }
}

impl StorageSlot {
    /// Copies the slot.
    pub fn duplicate(&self) -> (r: Self)
        ensures
            r@ == self@,
    {
        match self {
            StorageSlot::Value(w) => StorageSlot::Value(*w),
            StorageSlot::Mapping(entries) => StorageSlot::Mapping(copy_vec(entries)),
        }
    }
}

/// The vault entries issued by a given faucet.
pub open spec fn by_faucet(faucet: AccountId) -> spec_fn(Asset) -> bool {
    |a: Asset| a.faucet == faucet
}

/// The map entries under a given key.
pub open spec fn by_map_key(key: Word4) -> spec_fn((Word4, Word4)) -> bool {
    |e: (Word4, Word4)| e.0 == key
}

/// The vault entry issued by `faucet`, if the vault holds one.
pub open spec fn spec_vault_entry(v: Seq<Asset>, faucet: AccountId) -> Option<Asset> {
    find_first(v, by_faucet(faucet))
}

/// Balance of the vault for one asset type: the amount of its entry, or zero.
pub open spec fn spec_vault_balance(v: Seq<Asset>, faucet: AccountId) -> u64 {
    match spec_vault_entry(v, faucet) {
        Some(a) => a.amount,
        None => 0u64,
    }
}

/// A well-formed vault holds at most one entry per issuing faucet.
pub open spec fn vault_wf(v: Seq<Asset>) -> bool {
    unique_by(v, |a: Asset| a.faucet)
}

/// The vault after adding an asset: the entry of its type grows, or a new
/// entry is appended; an overflowing amount is an `AssetError`.
pub open spec fn spec_vault_add(v: Seq<Asset>, a: Asset) -> Result<Seq<Asset>, EngineError> {
    let fi = find_idx(v, by_faucet(a.faucet));
    if fi >= 0 {
        if v[fi].amount + a.amount > u64::MAX {
            Err(EngineError::AssetError)
        } else {
            Ok(v.update(fi, Asset { faucet: a.faucet, amount: (v[fi].amount + a.amount) as u64 }))
        }
    } else {
        Ok(v.push(a))
    }
}

/// The vault after removing an amount of one asset type; an underflow is an
/// `AssetError`.
pub open spec fn spec_vault_remove(v: Seq<Asset>, a: Asset) -> Result<Seq<Asset>, EngineError> {
    let fi = find_idx(v, by_faucet(a.faucet));
    if fi >= 0 {
        if a.amount > v[fi].amount {
            Err(EngineError::AssetError)
        } else {
            Ok(v.update(fi, Asset { faucet: a.faucet, amount: (v[fi].amount - a.amount) as u64 }))
        }
    } else {
        if a.amount == 0 {
            Ok(v)
        } else {
            Err(EngineError::AssetError)
        }
    }
}

/// An account in the local store.
pub struct AccountRecord {
    /// Opaque fixed-width identity.
    pub id: AccountId,
    /// Strictly increases with each applied transaction.
    pub nonce: u64,
    /// Ordered storage slots.
    pub storage: Vec<StorageSlot>,
    /// Multiset of typed assets, one entry per asset type.
    pub vault: Vec<Asset>,
    /// Commitment of the account's code, handed in from the outside.
    pub code_commitment: Word4,
    /// Whether the account's code may be replaced after deployment.
    pub updatable_code: bool,
    /// Public, private or network storage mode.
    pub visibility: AccountVisibility,
    /// Whether the account issues its own fungible asset.
    pub is_faucet: bool,
    /// Whether the account's authorization component accepts notes that are
    /// not explicitly routed to it.
    pub accepts_open_notes: bool,
    /// Procedure commitments that the authorization component protects:
    /// calling one of these requires an authorized transaction.
    pub protected_procedures: Vec<Word4>,
}

/// Mathematical view of [`AccountRecord`].
#[verifier::ext_equal]
pub struct AccountRecordV {
    pub id: AccountId,
    pub nonce: u64,
    pub storage: Seq<StorageSlotV>,
    pub vault: Seq<Asset>,
    pub code_commitment: Word4,
    pub updatable_code: bool,
    pub visibility: AccountVisibility,
    pub is_faucet: bool,
    pub accepts_open_notes: bool,
    pub protected_procedures: Seq<Word4>,
}

impl View for AccountRecord {
    type V = AccountRecordV;

    open spec fn view(&self) -> AccountRecordV {
        AccountRecordV {
            id: self.id,
            nonce: self.nonce,
            storage: self.storage@.map_values(|s: StorageSlot| s@),
            vault: self.vault@,
            code_commitment: self.code_commitment,
            updatable_code: self.updatable_code,
            visibility: self.visibility,
            is_faucet: self.is_faucet,
            accepts_open_notes: self.accepts_open_notes,
            protected_procedures: self.protected_procedures@,
        }
    }
}

impl AccountRecord {
    /// A well-formed account has a well-formed vault.
    pub open spec fn wf(self) -> bool {
        vault_wf(self@.vault)
    }

    /// Copies the record.
    pub fn duplicate(&self) -> (r: Self)
        ensures
            r@ == self@,
    {
        let mut storage: Vec<StorageSlot> = Vec::new();
        let mut i: usize = 0;
        while i < self.storage.len()
            invariant
                0 <= i <= self.storage@.len(),
                storage@.len() == i as int,
                forall|k: int| 0 <= k < i ==> (#[trigger] storage@[k])@ == self.storage@[k]@,
            decreases self.storage@.len() - i,
        {
            storage.push(self.storage[i].duplicate());
            i = i + 1;
        }
        let r = AccountRecord {
            id: self.id,
            nonce: self.nonce,
            storage,
            vault: copy_vec(&self.vault),
            code_commitment: self.code_commitment,
            updatable_code: self.updatable_code,
            visibility: self.visibility,
            is_faucet: self.is_faucet,
            accepts_open_notes: self.accepts_open_notes,
            protected_procedures: copy_vec(&self.protected_procedures),
        };
        proof {
            assert(r@.storage =~= self@.storage);
            assert(r@ =~= self@);
        }
        r
    }

    /// Reads a scalar storage slot, as a transaction's foreign-account reads
    /// do. `None` when the index is out of range or the slot holds a map.
    pub fn get_item(&self, index: usize) -> (r: Option<Word4>)
        ensures
            r == spec_get_item(self@.storage, index as int),
    {
        if index < self.storage.len() {
            match &self.storage[index] {
                StorageSlot::Value(w) => Some(*w),
                StorageSlot::Mapping(_) => None,
            }
        } else {
            None
        }
    }

    /// Reads a scalar storage slot addressed by a wide index, as storage
    /// words address them. `None` when the index is out of range or the slot
    /// holds a map.
    pub fn get_item_u64(&self, index: u64) -> (r: Option<Word4>)
        ensures
            r == spec_get_item(self@.storage, index as int),
    {
        if index >= self.storage.len() as u64 {
            proof {
                assert(self@.storage.len() == self.storage@.len());
            }
            None
        } else {
            self.get_item(index as usize)
        }
    }

    /// Reads one key of a map storage slot. `None` when the index is out of
    /// range, the slot is scalar, or the key is absent.
    pub fn get_map_item(&self, index: usize, key: Word4) -> (r: Option<Word4>)
        ensures
            r == spec_get_map_item(self@.storage, index as int, key),
    {
        if index >= self.storage.len() {
            return None;
        }
        proof {
            assert(self@.storage.len() == self.storage@.len());
            assert(self@.storage[index as int] == self.storage@[index as int]@);
        }
        match &self.storage[index] {
            StorageSlot::Value(_) => None,
            StorageSlot::Mapping(entries) => {
                let ghost p = by_map_key(key);
                let mut i: usize = 0;
                while i < entries.len()
                    invariant
                        0 <= i <= entries@.len(),
                        p == by_map_key(key),
                        index < self.storage@.len(),
                        self@.storage.len() == self.storage@.len(),
                        self@.storage[index as int] == StorageSlotV::Mapping(entries@),
                        forall|k: int| 0 <= k < i ==> !p(#[trigger] entries@[k]),
                    decreases entries@.len() - i,
                {
                    if entries[i].0 == key {
                        proof {
                            lemma_find_idx(entries@, p);
                            assert(p(entries@[i as int]));
                            let fi = find_idx(entries@, p);
                            if fi == -1 {
                                assert(!p(entries@[i as int]));
                                assert(false);
                            } else if fi < i as int {
                                assert(!p(entries@[fi]));
                                assert(false);
                            } else if fi > i as int {
                                assert(!p(entries@[i as int]));
                                assert(false);
                            }
                            assert(find_first(entries@, p) == Some(entries@[i as int]));
                            assert(self.storage@[index as int]@ == StorageSlotV::Mapping(
                                entries@,
                            ));
                            assert(self@.storage[index as int] == StorageSlotV::Mapping(entries@));
                            assert(spec_get_map_item(self@.storage, index as int, key) == Some(
                                entries@[i as int].1,
                            ));
                        }
                        return Some(entries[i].1);
                    }
                    i = i + 1;
                }
                proof {
                    lemma_find_idx(entries@, p);
                    if find_idx(entries@, p) >= 0 {
                        assert(p(entries@[find_idx(entries@, p)]));
                        assert(false);
                    }
                }
                None
            },
        }
    }
}

/// Scalar value of a storage slot.
pub open spec fn spec_get_item(storage: Seq<StorageSlotV>, index: int) -> Option<Word4> {
    if 0 <= index < storage.len() {
        match storage[index] {
            StorageSlotV::Value(w) => Some(w),
            StorageSlotV::Mapping(_) => None,
        }
    } else {
        None
    }
}

/// Value under a key of a map storage slot.
pub open spec fn spec_get_map_item(storage: Seq<StorageSlotV>, index: int, key: Word4) -> Option<
    Word4,
> {
    if 0 <= index < storage.len() {
        match storage[index] {
            StorageSlotV::Value(_) => None,
            StorageSlotV::Mapping(entries) => match find_first(entries, by_map_key(key)) {
                Some(e) => Some(e.1),
                None => None,
            },
        }
    } else {
        None
    }
}

/// Finds the position of the vault entry issued by `faucet`.
fn vault_find(vault: &Vec<Asset>, faucet: AccountId) -> (r: Option<usize>)
    ensures
        match r {
            Some(i) => i < vault@.len() && find_idx(vault@, by_faucet(faucet)) == i as int,
            None => find_idx(vault@, by_faucet(faucet)) == -1,
        },
{
    let ghost p = by_faucet(faucet);
    let mut i: usize = 0;
    while i < vault.len()
        invariant
            0 <= i <= vault@.len(),
            p == by_faucet(faucet),
            forall|k: int| 0 <= k < i ==> !p(#[trigger] vault@[k]),
        decreases vault@.len() - i,
    {
        if vault[i].faucet == faucet {
            proof {
                lemma_find_idx(vault@, p);
                assert(p(vault@[i as int]));
                let fi = find_idx(vault@, p);
                if fi < i as int && fi >= 0 {
                    assert(!p(vault@[fi]));
                }
                if fi > i as int {
                    assert(!p(vault@[i as int]));
                }
            }
            return Some(i);
        }
        i = i + 1;
    }
    proof {
        lemma_find_idx(vault@, p);
        if find_idx(vault@, p) >= 0 {
            assert(p(vault@[find_idx(vault@, p)]));
            assert(false);
        }
    }
    None
}

/// Balance of the vault for one asset type.
pub fn vault_balance(vault: &Vec<Asset>, faucet: AccountId) -> (r: u64)
    ensures
        r == spec_vault_balance(vault@, faucet),
{
    match vault_find(vault, faucet) {
        Some(i) => vault[i].amount,
        None => 0,
    }
}

/// Adds an asset to the vault. On overflow the vault is unchanged and
/// `AssetError` is returned; otherwise only the balance of the added asset's
/// type changes, and it grows by exactly the added amount.
pub fn vault_add(vault: &mut Vec<Asset>, asset: Asset) -> (r: Result<(), EngineError>)
    requires
        vault_wf(old(vault)@),
    ensures
        vault_wf(final(vault)@),
        match r {
            Ok(()) => spec_vault_balance(old(vault)@, asset.faucet) + asset.amount <= u64::MAX
                && spec_vault_balance(final(vault)@, asset.faucet) == spec_vault_balance(
                old(vault)@,
                asset.faucet,
            ) + asset.amount,
            Err(e) => e == EngineError::AssetError && final(vault)@ == old(vault)@
                && spec_vault_balance(old(vault)@, asset.faucet) + asset.amount > u64::MAX,
        },
        match r {
            Ok(()) => spec_vault_add(old(vault)@, asset) == Ok::<Seq<Asset>, EngineError>(
                final(vault)@,
            ),
            Err(e) => spec_vault_add(old(vault)@, asset) == Err::<Seq<Asset>, EngineError>(e),
        },
        forall|f: AccountId|
            f != asset.faucet ==> spec_vault_balance(final(vault)@, f) == spec_vault_balance(
                old(vault)@,
                f,
            ),
{
    let ghost p = by_faucet(asset.faucet);
    match vault_find(vault, asset.faucet) {
        Some(i) => {
            proof {
                lemma_find_idx(vault@, p);
            }
            let cur = vault[i].amount;
            if asset.amount > u64::MAX - cur {
                Err(EngineError::AssetError)
            } else {
                let updated = Asset { faucet: asset.faucet, amount: cur + asset.amount };
                vault[i] = updated;
                proof {
                    lemma_find_idx_update(old(vault)@, p, i as int, updated);
                    assert forall|f: AccountId| f != asset.faucet implies spec_vault_balance(
                        vault@,
                        f,
                    ) == spec_vault_balance(old(vault)@, f) by {
                        let q = by_faucet(f);
                        assert(!q(old(vault)@[i as int]));
                        assert(!q(updated));
                        lemma_find_idx_update_other(old(vault)@, q, i as int, updated);
                        lemma_find_idx(old(vault)@, q);
                        let fi = find_idx(old(vault)@, q);
                        if fi >= 0 {
                            assert(vault@[fi] == old(vault)@[fi]);
                        }
                    }
                    assert forall|x: int, y: int|
                        0 <= x < y < vault@.len() implies (#[trigger] vault@[x]).faucet
                        != (#[trigger] vault@[y]).faucet by {
                        if x != i as int && y != i as int {
                            assert(vault@[x] == old(vault)@[x]);
                            assert(vault@[y] == old(vault)@[y]);
                        } else {
                            assert(p(old(vault)@[i as int]));
                        }
                    }
                }
                Ok(())
            }
        },
        None => {
            proof {
                lemma_find_idx(vault@, p);
            }
            vault.push(asset);
            proof {
                lemma_find_idx_push(old(vault)@, p, asset);
                assert forall|f: AccountId| f != asset.faucet implies spec_vault_balance(vault@, f)
                    == spec_vault_balance(old(vault)@, f) by {
                    let q = by_faucet(f);
                    assert(!q(asset));
                    lemma_find_idx_push_other(old(vault)@, q, asset);
                    lemma_find_idx(old(vault)@, q);
                    let fi = find_idx(old(vault)@, q);
                    if fi >= 0 {
                        assert(vault@[fi] == old(vault)@[fi]);
                    }
                }
                let n = old(vault)@.len() as int;
                lemma_find_idx(old(vault)@, p);
                assert forall|x: int, y: int|
                    0 <= x < y < vault@.len() implies (#[trigger] vault@[x]).faucet
                    != (#[trigger] vault@[y]).faucet by {
                    if y == n {
                        assert(vault@[x] == old(vault)@[x]);
                        assert(!p(old(vault)@[x]));
                    } else {
                        assert(vault@[x] == old(vault)@[x]);
                        assert(vault@[y] == old(vault)@[y]);
                    }
                }
            }
            Ok(())
        },
    }
}

/// Removes an amount of one asset type from the vault. On underflow the vault
/// is unchanged and `AssetError` is returned; otherwise only that balance
/// changes, and it shrinks by exactly the removed amount.
pub fn vault_remove(vault: &mut Vec<Asset>, asset: Asset) -> (r: Result<(), EngineError>)
    requires
        vault_wf(old(vault)@),
    ensures
        vault_wf(final(vault)@),
        match r {
            Ok(()) => asset.amount <= spec_vault_balance(old(vault)@, asset.faucet)
                && spec_vault_balance(final(vault)@, asset.faucet) == spec_vault_balance(
                old(vault)@,
                asset.faucet,
            ) - asset.amount,
            Err(e) => e == EngineError::AssetError && final(vault)@ == old(vault)@
                && asset.amount > spec_vault_balance(old(vault)@, asset.faucet),
        },
        match r {
            Ok(()) => spec_vault_remove(old(vault)@, asset) == Ok::<Seq<Asset>, EngineError>(
                final(vault)@,
            ),
            Err(e) => spec_vault_remove(old(vault)@, asset) == Err::<Seq<Asset>, EngineError>(e),
        },
        forall|f: AccountId|
            f != asset.faucet ==> spec_vault_balance(final(vault)@, f) == spec_vault_balance(
                old(vault)@,
                f,
            ),
{
    let ghost p = by_faucet(asset.faucet);
    match vault_find(vault, asset.faucet) {
        Some(i) => {
            proof {
                lemma_find_idx(vault@, p);
            }
            let cur = vault[i].amount;
            if asset.amount > cur {
                Err(EngineError::AssetError)
            } else {
                let updated = Asset { faucet: asset.faucet, amount: cur - asset.amount };
                vault[i] = updated;
                proof {
                    lemma_find_idx_update(old(vault)@, p, i as int, updated);
                    assert forall|f: AccountId| f != asset.faucet implies spec_vault_balance(
                        vault@,
                        f,
                    ) == spec_vault_balance(old(vault)@, f) by {
                        let q = by_faucet(f);
                        assert(!q(old(vault)@[i as int]));
                        assert(!q(updated));
                        lemma_find_idx_update_other(old(vault)@, q, i as int, updated);
                        lemma_find_idx(old(vault)@, q);
                        let fi = find_idx(old(vault)@, q);
                        if fi >= 0 {
                            assert(vault@[fi] == old(vault)@[fi]);
                        }
                    }
                    assert forall|x: int, y: int|
                        0 <= x < y < vault@.len() implies (#[trigger] vault@[x]).faucet
                        != (#[trigger] vault@[y]).faucet by {
                        if x != i as int && y != i as int {
                            assert(vault@[x] == old(vault)@[x]);
                            assert(vault@[y] == old(vault)@[y]);
                        } else {
                            assert(p(old(vault)@[i as int]));
                        }
                    }
                }
                Ok(())
            }
        },
        None => {
            proof {
                lemma_find_idx(vault@, p);
            }
            if asset.amount == 0 {
                Ok(())
            } else {
                Err(EngineError::AssetError)
            }
        },
    }
}

} // verus!
