//! Local-first client engine for a note-based ledger.
//!
//! The library keeps a local view of on-chain account, note and transaction
//! state (the store), reconciles remote deltas into it (sync), matches
//! unconsumed notes to the accounts allowed to consume them (matcher), builds
//! and executes transactions against the local view (builder, executor),
//! dispatches proving locally or to a remote service (prover), applies
//! submitted transactions speculatively (submit), and decides when a
//! submitted transaction has reached a terminal status (waiter).
//!
//! All decisions are pure functions over plain values; network calls, the
//! script compiler and randomness stand behind a thin trusted boundary.
pub mod account;
pub mod builder;
pub mod claim;
pub mod compiler;
pub mod digest;
pub mod executor;
pub mod matcher;
pub mod note;
pub mod oracle;
pub mod prover;
pub mod rng;
pub mod seq_find;
pub mod store;
pub mod submit;
pub mod sync;
pub mod transaction;
pub mod types;
pub mod waiter;
