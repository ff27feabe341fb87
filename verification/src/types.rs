//! Scalar model types shared by every component of the engine.
//!
//! All types here are plain copyable values with structural equality: ids,
//! words, assets, note metadata and the status enums of the record lifecycle.
use vstd::prelude::*;

verus! {

/// Identity of a ledger account: an opaque fixed-width id, split into the
/// prefix and suffix halves that routing and storage reads use.
#[derive(Clone, Copy, PartialEq, Eq, Structural, Hash, Debug)]
pub struct AccountId {
    pub prefix: u64,
    pub suffix: u64,
}

/// A four-element word: the unit of account storage values, storage map keys
/// and code or procedure commitments handed in from the outside.
#[derive(Clone, Copy, PartialEq, Eq, Structural, Hash, Debug)]
pub struct Word4 {
    pub e0: u64,
    pub e1: u64,
    pub e2: u64,
    pub e3: u64,
}

impl Word4 {
    /// The all-zero word.
    pub fn zero() -> (w: Word4)
        ensures
            w == (Word4 { e0: 0u64, e1: 0u64, e2: 0u64, e3: 0u64 }),
    {
        Word4 { e0: 0, e1: 0, e2: 0, e3: 0 }
    }
}

/// Where an account's state lives and who may read it.
#[derive(Clone, Copy, PartialEq, Eq, Structural, Debug)]
pub enum AccountVisibility {
    Public,
    Private,
    Network,
}

/// Visibility of a note on chain.
#[derive(Clone, Copy, PartialEq, Eq, Structural, Debug)]
pub enum NoteKind {
    Public,
    Private,
}

/// When a note may be consumed, as far as its creator declared it.
#[derive(Clone, Copy, PartialEq, Eq, Structural, Debug)]
pub enum ExecutionHint {
    /// Consumable at any block.
    Always,
    /// Consumable only once the chain has reached the given block.
    AfterBlock { height: u32 },
}

/// A typed fungible amount: `amount` units issued by the faucet account.
#[derive(Clone, Copy, PartialEq, Eq, Structural, Debug)]
pub struct Asset {
    pub faucet: AccountId,
    pub amount: u64,
}

/// Metadata attached to a note: its sender, visibility, routing tag,
/// execution hint and one free numeric field.
#[derive(Clone, Copy, PartialEq, Eq, Structural, Debug)]
pub struct NoteMetadata {
    pub sender: AccountId,
    pub kind: NoteKind,
    pub tag: u64,
    pub hint: ExecutionHint,
    pub aux: u64,
}

/// Lifecycle of a note in the local store.
#[derive(Clone, Copy, PartialEq, Eq, Structural, Debug)]
pub enum NoteStatus {
    /// Created by a locally submitted transaction; not yet seen on chain.
    Expected,
    /// On chain and not yet consumed: the only state the matcher offers.
    Unconsumed,
    /// Consumed exactly once, by the transaction with the given id.
    Consumed { by: u64 },
    /// A routed note that was never picked up.
    Expired,
}

/// Lifecycle of a locally submitted transaction.
#[derive(Clone, Copy, PartialEq, Eq, Structural, Debug)]
pub enum TransactionStatus {
    /// Submitted and applied speculatively; not yet committed on chain.
    Pending,
    /// Committed at the given block height.
    Committed { block: u32 },
    /// The network rejected it or committed a conflicting transaction.
    Discarded,
}

/// The last block the sync client has fully reconciled; drives incremental
/// pulls.
#[derive(Clone, Copy, PartialEq, Eq, Structural, Debug)]
pub struct SyncCheckpoint {
    pub block_num: u32,
    pub block_commitment: Word4,
}

/// The error taxonomy of the engine.
///
/// `NotFound` is a non-fatal lookup miss; `SyncError` a recoverable transport
/// failure; `ScriptFailure` and `AssetError` deterministic rejections that do
/// not go away on retry; `ProverUnavailable` a retryable proving failure;
/// `ProofRejected` an invalid witness, not retryable with the same witness;
/// `CommitmentTimeout` an advisory give-up of the waiter.
#[derive(Clone, Copy, PartialEq, Eq, Structural, Debug)]
pub enum EngineError {
    NotFound,
    SyncError,
    ScriptFailure,
    AssetError,
    ProverUnavailable,
    ProofRejected,
    CommitmentTimeout,
}

/// Copies a vector of copyable values.
pub fn copy_vec<T: Copy>(v: &Vec<T>) -> (r: Vec<T>)
    ensures
        r@ =~= v@,
{
    let mut r: Vec<T> = Vec::new();
    let mut i: usize = 0;
    while i < v.len()
        invariant
            0 <= i <= v@.len(),
            r@ =~= v@.take(i as int),
        decreases v@.len() - i,
    {
        r.push(v[i]);
        proof {
            assert(v@.take(i as int + 1) =~= v@.take(i as int).push(v@[i as int]));
        }
        i = i + 1;
    }
    r
}

/// Whether the vector holds the given word.
pub fn vec_contains_u64(v: &Vec<u64>, x: u64) -> (b: bool)
    ensures
        b == v@.contains(x),
{
    let mut i: usize = 0;
    while i < v.len()
        invariant
            0 <= i <= v@.len(),
            forall|k: int| 0 <= k < i ==> v@[k] != x,
        decreases v@.len() - i,
    {
        if v[i] == x {
            proof {
                assert(v@[i as int] == x);
            }
            return true;
        }
        i = i + 1;
    }
    proof {
        if v@.contains(x) {
            let k = choose|k: int| 0 <= k < v@.len() && v@[k] == x;
            assert(v@[k] != x);
            assert(false);
        }
    }
    false
}

} // verus!
