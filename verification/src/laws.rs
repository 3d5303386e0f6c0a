//! Laws: the engine-wide guarantees, each proved once and for all inputs.
//!
//! Each proof function here states a rule of the system over the same spec
//! functions the operations' contracts use, so that together with those
//! contracts it pins the behaviour down for every state and every input.

use vstd::prelude::*;
use crate::engine::Engine;
use crate::error::BondrError;
use crate::state::ClientMultisig;
use crate::state::PairKey;
use crate::state::approving_slots;
use crate::state::lemma_count_set_is_cardinality;
use crate::tier::LoyaltyTier;
use crate::tier::TierConfig;
use crate::tier::loyalty_milestone_spec;
use crate::MAX_REFERENCE_SEED;
use crate::MAX_TRANSFER_AMOUNT;

verus! {

/// With a fresh identity, distinct well-funded parties and a valid seed,
/// escrow creation fails exactly when the amount is zero or above the
/// ceiling — and each failure names its error.
pub proof fn lemma_create_fails_iff_bad_amount(
    e: Engine,
    sender: u64,
    receiver: u64,
    amount: u64,
    reference_seed: u8,
)
    requires
        e.wf(),
        !e.has_escrow(PairKey { sender, receiver, reference_seed }),
        sender != receiver,
        1 <= reference_seed <= MAX_REFERENCE_SEED,
        e.balance(sender) >= amount,
    ensures
        e.create_escrow_check(sender, receiver, amount, reference_seed, false) is Some <==> (amount
            == 0 || amount > MAX_TRANSFER_AMOUNT),
        amount == 0 ==> e.create_escrow_check(sender, receiver, amount, reference_seed, false)
            == Some(BondrError::InvalidAmountZero),
        amount > MAX_TRANSFER_AMOUNT ==> e.create_escrow_check(
            sender,
            receiver,
            amount,
            reference_seed,
            false,
        ) == Some(BondrError::AmountTooLarge),
{
}

/// A second creation at an occupied identity fails with the collision
/// error, whatever the amount and whatever else is asked.
pub proof fn lemma_create_collision(
    e: Engine,
    sender: u64,
    receiver: u64,
    amount: u64,
    reference_seed: u8,
    is_multisig: bool,
)
    requires
        e.has_escrow(PairKey { sender, receiver, reference_seed }),
    ensures
        e.create_escrow_check(sender, receiver, amount, reference_seed, is_multisig) == Some(
            BondrError::AccountAlreadyInUse,
        ),
{
}

/// Releasing an escrow whose flag is already set fails `AlreadyReleased`,
/// even for the funder of a plain (non-multisig) escrow.
pub proof fn lemma_release_twice_fails(e: Engine, caller: u64, k: PairKey)
    requires
        e.has_escrow(k),
        e.escrow_of(k).is_released,
        caller == e.escrow_of(k).sender,
        e.escrow_of(k).client_multisig is None,
    ensures
        e.release_check(caller, k) == Some(BondrError::AlreadyReleased),
{
}

/// Claiming before any release fails `NotReleased`, even for the
/// beneficiary.
pub proof fn lemma_claim_before_release_fails(e: Engine, caller: u64, k: PairKey)
    requires
        e.has_escrow(k),
        !e.escrow_of(k).is_released,
        caller == e.escrow_of(k).receiver,
    ensures
        e.claim_check(caller, k) == Some(BondrError::NotReleased),
{
}

/// Once no escrow lives at an identity — in particular after a successful
/// claim destroyed it — every escrow operation at that identity fails
/// `AccountNotFound`, and its vault holds nothing.  With `claim_payment`'s
/// guarantee that success removes the record, this makes claiming exactly
/// once.
pub proof fn lemma_missing_escrow_not_found(e: Engine, caller: u64, member: u64, k: PairKey)
    requires
        !e.has_escrow(k),
    ensures
        e.release_check(caller, k) == Some(BondrError::AccountNotFound),
        e.claim_check(caller, k) == Some(BondrError::AccountNotFound),
        e.approve_check(member, k) == Some(BondrError::AccountNotFound),
        e.vault_balance_spec(k) == 0,
{
}

/// An identity outside the active members never approves: whatever else
/// holds of the state, the approval is rejected.
pub proof fn lemma_approve_non_member_fails(e: Engine, member: u64, k: PairKey)
    requires
        e.has_multisig(k.sender) ==> !e.multisig_of(k.sender).is_active_member(member),
    ensures
        e.approve_check(member, k) is Some,
{
}

/// A member whose flag is already set cannot approve again: approvals are
/// monotonic, with no retraction and no double counting.
pub proof fn lemma_approve_twice_fails(e: Engine, member: u64, k: PairKey)
    requires
        e.has_escrow(k),
        e.has_multisig(k.sender),
        e.multisig_of(k.sender).pending_escrow == Some(k),
        e.multisig_of(k.sender).is_active_member(member),
        e.multisig_of(k.sender).approvals@[e.multisig_of(k.sender).member_index(member)],
    ensures
        e.approve_check(member, k) == Some(BondrError::AlreadyApproved),
{
}

/// The release decision depends only on how many distinct active members
/// have approved, never on which members or in what order: the approval
/// count a threshold is compared against is the cardinality of the set of
/// approving slots.  Together with `approve_multisig_release`'s contract —
/// each success raises that count by exactly one and releases exactly when
/// it reaches the threshold — a threshold of `t` releases on the `t`-th
/// distinct approval and no earlier.
pub proof fn lemma_release_depends_on_count_only(m: ClientMultisig)
    requires
        m.wf(),
    ensures
        m.approved_count() == approving_slots(m.approvals@, m.member_count as int).len(),
{
    lemma_count_set_is_cardinality(m.approvals@, m.member_count as int);
}

/// The tier mapping is monotone: more completions never map to a lower
/// tier.
pub proof fn lemma_tier_monotone(c: TierConfig, a: u32, b: u32)
    requires
        c.wf(),
        a <= b,
    ensures
        c.tier_for_spec(a).rank_spec() <= c.tier_for_spec(b).rank_spec(),
{
}

/// A completion count below the first boundary cannot mint.
pub proof fn lemma_mint_insufficient_history(e: Engine, freelancer: u64)
    requires
        e.wf(),
        e.has_badge(freelancer),
        e.badge_of(freelancer).completed_escrows < e.tiers.verified_min,
    ensures
        e.mint_check(freelancer) == Some(BondrError::InsufficientEscrows),
{
}

/// A stored tier at or above the target cannot mint again: in particular,
/// right after a successful mint — which stores the target tier itself —
/// an immediate re-mint at the same count fails `NFTAlreadyMinted`.
pub proof fn lemma_remint_fails(e: Engine, freelancer: u64)
    requires
        e.wf(),
        e.has_badge(freelancer),
        e.badge_of(freelancer).tier == e.tiers.tier_for_spec(
            e.badge_of(freelancer).completed_escrows,
        ),
        e.badge_of(freelancer).tier !is Unranked,
    ensures
        e.mint_check(freelancer) == Some(BondrError::NFTAlreadyMinted),
{
}

/// A loyalty milestone fires exactly at the counts 3, 10 and 25 and at no
/// other count.
pub proof fn lemma_milestone_exact(count: u64)
    ensures
        loyalty_milestone_spec(count) is Some <==> (count == 3 || count == 10 || count == 25),
        count == 3 ==> loyalty_milestone_spec(count) == Some(LoyaltyTier::Novice),
        count == 10 ==> loyalty_milestone_spec(count) == Some(LoyaltyTier::Expert),
        count == 25 ==> loyalty_milestone_spec(count) == Some(LoyaltyTier::Elite),
{
}

/// Each loyalty milestone belongs to a single count, so — the transaction
/// counter rising by exactly one per recorded remittance — no milestone
/// can ever fire twice for one sender.
pub proof fn lemma_milestone_injective(a: u64, b: u64)
    requires
        loyalty_milestone_spec(a) == loyalty_milestone_spec(b),
        loyalty_milestone_spec(a) is Some,
    ensures
        a == b,
{
}

} // verus!
