//! Domain events.
//!
//! The engine computes each event; at-least-once emission to downstream
//! consumers is a collaborator concern, so operations hand the event back to
//! the caller instead of emitting it themselves.

use vstd::prelude::*;
use crate::tier::LoyaltyTier;
use crate::tier::ReputationTier;

verus! {

/// A new escrow was created and funded.
#[derive(Clone, Copy, Debug, PartialEq, Eq, Structural)]
pub struct EscrowCreateEvent {
    /// Funding party.
    pub sender: u64,
    /// Beneficiary.
    pub receiver: u64,
    /// Amount moved into custody.
    pub amount: u64,
    /// Seed disambiguating concurrent escrows of the same pair.
    pub reference_seed: u8,
    /// Which transfer rail the funds took.
    pub is_token_transfer: bool,
}

/// An identity advanced to a new reputation tier and a credential of that
/// tier is due.
#[derive(Clone, Copy, Debug, PartialEq, Eq, Structural)]
pub struct ReputationMilestoneEvent {
    /// The credentialed identity.
    pub user: u64,
    /// The tier reached.
    pub tier: ReputationTier,
}

/// A multisig configuration was created.
#[derive(Clone, Copy, Debug, PartialEq, Eq, Structural)]
pub struct ClientMultisigCreated {
    /// The creating client.
    pub client: u64,
    /// Identity of the configuration; derived from the client alone, so it
    /// equals the client here.
    pub multisig: u64,
    /// Active member slots.
    pub member_count: u8,
    /// Approvals required for release.
    pub threshold: u8,
}

/// A sender's transaction counter crossed a loyalty milestone.
#[derive(Clone, Copy, Debug, PartialEq, Eq, Structural)]
pub struct LoyaltyMilestoneEvent {
    /// The sender whose counter crossed the milestone.
    pub user: u64,
    /// The loyalty tier reached.
    pub tier: LoyaltyTier,
}

} // verus!
