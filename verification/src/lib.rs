//! A custodied-funds escrow engine with optional M-of-N multisig release
//! authorization and a reputation-tier state machine.
//!
//! The engine owns every record it mutates: account balances, escrow records
//! and their custody vaults, multisig configurations, per-user completion
//! statistics, reputation badges, and remittance records.  Every operation is
//! atomic: it either applies all of its effects or none, and surfaces a
//! terminal error.  Moving value on a real ledger, emitting events, and
//! minting credentials are collaborator concerns: operations return the event
//! or tier data a caller needs to drive them.

use vstd::prelude::*;

pub mod engine;
pub mod error;
pub mod event;
pub mod laws;
pub mod state;
pub mod store;
pub mod tier;

verus! {

/// Largest amount a single escrow or remittance may carry.
pub const MAX_TRANSFER_AMOUNT: u64 = 1_000_000_000_000;

/// Fixed capacity of a multisig member list.
pub const MAX_MULTISIG_MEMBERS: usize = 5;

/// Reference seeds must lie in `1..=MAX_REFERENCE_SEED`.
pub const MAX_REFERENCE_SEED: u8 = 100;

} // verus!
