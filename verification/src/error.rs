//! Terminal errors surfaced by the engine.
//!
//! Every operation either fully applies or fails with exactly one of these;
//! no partial state survives a failure.

use vstd::prelude::*;

verus! {

/// The error taxonomy: validation errors (bad amounts, bad seeds, malformed
/// multisig configurations), authorization errors (wrong caller), state
/// errors (wrong lifecycle phase), and resource errors (missing balance or
/// record).
#[derive(Clone, Copy, Debug, PartialEq, Eq, Structural)]
pub enum BondrError {
    /// An amount failed validation.
    InvalidAmount,
    /// An amount of zero was supplied.
    InvalidAmountZero,
    /// Funder and beneficiary are the same identity.
    SelfTransfer,
    /// A reference seed of zero, or above the configured bound.
    InvalidReferenceSeed,
    /// An amount above the configured ceiling.
    AmountTooLarge,
    /// The paying account does not hold the amount to move.
    InsufficientBalance,
    /// A token transfer was requested without its token accounts.
    MissingTokenAccounts,
    /// A token transfer was requested without a token program handle.
    MissingTokenProgram,
    /// The caller is not authorized for this operation.
    UnauthorizedSender,
    /// The escrow's release flag is already set.
    AlreadyReleased,
    /// The escrow's release flag is not yet set.
    NotReleased,
    /// Member count or threshold out of bounds, a missing configuration, or
    /// a creator absent from the member list.
    InvalidMultisigConfig,
    /// Two active member slots hold the same identity.
    DuplicateMember,
    /// The multisig already gates a pending escrow.
    MultisigBusy,
    /// The approving identity is not an active member.
    NotMultisigMember,
    /// This member's approval flag is already set.
    AlreadyApproved,
    /// The escrow under approval is not the multisig's pending escrow.
    MultisigPendingEscrowMismatch,
    /// Too few completed escrows for any credential tier.
    InsufficientEscrows,
    /// A credential of this tier (or a higher one) was already minted.
    NFTAlreadyMinted,
    /// A record already exists at the derived identity.
    AccountAlreadyInUse,
    /// No record exists at the derived identity.
    AccountNotFound,
}

} // verus!
