//! A verified non-fungible-token ledger: a durable map from token id to owner,
//! a per-token approval ledger, enumeration over tokens, storage-cost
//! accounting for every mutating call, a mint gate, and a two-phase
//! transfer-with-acknowledgment protocol that reverts on rejection.
//!
//! The host environment (caller identity, attached payment, the asynchronous
//! acknowledgment call) is out of scope: its values enter every entry point as
//! plain parameters, and the resolution of a suspended transfer comes back as
//! an explicit outcome value.

pub mod accounting;
pub mod contract;
pub mod errors;
pub mod laws;
pub mod ledger;
pub mod metadata;
pub mod policy;
pub mod token;
