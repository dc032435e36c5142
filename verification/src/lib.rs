//! A verified crowdfunding ledger module.
//!
//! The crate manages the full lifecycle of pooled-fund campaigns — creation,
//! contribution, withdrawal, and dissolution. Each campaign's contributor
//! balances are held in an isolated, keyed storage partition, and all value
//! movement goes through a small ledger primitive. The engine's contracts
//! pin down every operation exactly: which inputs fail with which error, and
//! how each success moves the records, the partition entries and the
//! balances.
//!
//! The components, leaves first:
//! - [`kv`]: association-list maps with unique keys, the common substrate of
//!   every persistent structure here.
//! - [`store`]: the partitioned key/value store holding contributor balances.
//! - [`deriver`]: deterministic derivation of custodial accounts and
//!   storage-partition identifiers from campaign identifiers.
//! - [`ledger`]: the balance primitive (withdraw, transfer, resolve).
//! - [`registry`]: the authoritative map of campaign identifier to record,
//!   and the monotonic identifier counter.
//! - [`engine`]: the lifecycle state machine tying it all together.

pub mod deriver;
pub mod engine;
pub mod kv;
pub mod ledger;
pub mod registry;
pub mod store;
pub mod types;
