use bondr::engine::Engine;
use bondr::error::BondrError;
use bondr::state::validate_token_accounts;
use bondr::tier::loyalty_milestone;
use bondr::tier::LoyaltyTier;
use bondr::tier::ReputationTier;
use bondr::tier::TierConfig;

const FREELANCER: u64 = 77;
const SENDER: u64 = 5;
const RECEIVER: u64 = 6;

fn engine_with_badge(completed: u32) -> Engine {
    let mut e = Engine::new(TierConfig::default());
    e.initialize_freelancer_badge(FREELANCER).unwrap();
    for _ in 0..completed {
        e.update_freelancer_badge(FREELANCER, 10).unwrap();
    }
    e
}

#[test]
fn tier_ranks_are_ordered() {
    assert_eq!(ReputationTier::Unranked.rank(), 0);
    assert_eq!(ReputationTier::Verified.rank(), 1);
    assert_eq!(ReputationTier::Professional.rank(), 2);
    assert_eq!(ReputationTier::Elite.rank(), 3);
}

#[test]
fn default_tier_boundaries() {
    let c = TierConfig::default();
    assert_eq!(c.tier_for(0), ReputationTier::Unranked);
    assert_eq!(c.tier_for(2), ReputationTier::Unranked);
    assert_eq!(c.tier_for(3), ReputationTier::Verified);
    assert_eq!(c.tier_for(9), ReputationTier::Verified);
    assert_eq!(c.tier_for(10), ReputationTier::Professional);
    assert_eq!(c.tier_for(24), ReputationTier::Professional);
    assert_eq!(c.tier_for(25), ReputationTier::Elite);
    assert_eq!(c.tier_for(u32::MAX), ReputationTier::Elite);
}

#[test]
fn tier_boundaries_are_configuration() {
    let c = TierConfig { verified_min: 5, professional_min: 15, elite_min: 40 };
    assert_eq!(c.tier_for(4), ReputationTier::Unranked);
    assert_eq!(c.tier_for(5), ReputationTier::Verified);
    assert_eq!(c.tier_for(15), ReputationTier::Professional);
    assert_eq!(c.tier_for(40), ReputationTier::Elite);
}

#[test]
fn badge_starts_unranked_with_zero_counters() {
    let e = engine_with_badge(0);
    let b = e.get_badge(FREELANCER).unwrap();
    assert_eq!(b.tier, ReputationTier::Unranked);
    assert_eq!(b.completed_escrows, 0);
    assert_eq!(b.total_value_completed, 0);
    assert_eq!(b.freelancer, FREELANCER);
}

#[test]
fn badge_init_twice_fails_with_collision() {
    let mut e = engine_with_badge(0);
    let r = e.initialize_freelancer_badge(FREELANCER);
    assert_eq!(r.unwrap_err(), BondrError::AccountAlreadyInUse);
}

#[test]
fn badge_update_advances_counters() {
    let mut e = engine_with_badge(0);
    e.update_freelancer_badge(FREELANCER, 250).unwrap();
    e.update_freelancer_badge(FREELANCER, 750).unwrap();
    let b = e.get_badge(FREELANCER).unwrap();
    assert_eq!(b.completed_escrows, 2);
    assert_eq!(b.total_value_completed, 1000);
    assert_eq!(b.tier, ReputationTier::Unranked);
}

#[test]
fn badge_update_rejects_zero_value() {
    let mut e = engine_with_badge(0);
    let r = e.update_freelancer_badge(FREELANCER, 0);
    assert_eq!(r.unwrap_err(), BondrError::InvalidAmountZero);
}

#[test]
fn badge_update_without_badge_fails_not_found() {
    let mut e = Engine::new(TierConfig::default());
    let r = e.update_freelancer_badge(FREELANCER, 10);
    assert_eq!(r.unwrap_err(), BondrError::AccountNotFound);
    let r = e.mint_reputation_nft(FREELANCER);
    assert_eq!(r.unwrap_err(), BondrError::AccountNotFound);
}

#[test]
fn mint_needs_three_completions() {
    for completed in 0..3u32 {
        let mut e = engine_with_badge(completed);
        let r = e.mint_reputation_nft(FREELANCER);
        assert_eq!(r.unwrap_err(), BondrError::InsufficientEscrows);
    }
}

#[test]
fn mint_at_three_reaches_verified_and_remint_fails() {
    let mut e = engine_with_badge(3);
    let ev = e.mint_reputation_nft(FREELANCER).unwrap();
    assert_eq!(ev.user, FREELANCER);
    assert_eq!(ev.tier, ReputationTier::Verified);
    assert_eq!(e.get_badge(FREELANCER).unwrap().tier, ReputationTier::Verified);
    // an immediate second mint at the same count re-issues nothing
    let r = e.mint_reputation_nft(FREELANCER);
    assert_eq!(r.unwrap_err(), BondrError::NFTAlreadyMinted);
}

#[test]
fn mint_advances_verified_to_professional_at_ten() {
    let mut e = engine_with_badge(3);
    e.mint_reputation_nft(FREELANCER).unwrap();
    for _ in 3..10 {
        e.update_freelancer_badge(FREELANCER, 10).unwrap();
    }
    let ev = e.mint_reputation_nft(FREELANCER).unwrap();
    assert_eq!(ev.tier, ReputationTier::Professional);
    assert_eq!(e.get_badge(FREELANCER).unwrap().tier, ReputationTier::Professional);
}

#[test]
fn mint_skips_straight_to_elite() {
    let mut e = engine_with_badge(25);
    let ev = e.mint_reputation_nft(FREELANCER).unwrap();
    assert_eq!(ev.tier, ReputationTier::Elite);
}

#[test]
fn loyalty_milestones_fire_exactly_at_their_counts() {
    assert_eq!(loyalty_milestone(3), Some(LoyaltyTier::Novice));
    assert_eq!(loyalty_milestone(10), Some(LoyaltyTier::Expert));
    assert_eq!(loyalty_milestone(25), Some(LoyaltyTier::Elite));
    for c in [0u64, 1, 2, 4, 9, 11, 24, 26, 100] {
        assert_eq!(loyalty_milestone(c), None);
    }
}

#[test]
fn remittance_counter_fires_each_milestone_once() {
    let mut e = Engine::new(TierConfig::default());
    for seed in 1..=27u8 {
        let milestone = e.init_remittance(SENDER, RECEIVER, 50, seed).unwrap();
        let expected = match seed {
            3 => Some(LoyaltyTier::Novice),
            10 => Some(LoyaltyTier::Expert),
            25 => Some(LoyaltyTier::Elite),
            _ => None,
        };
        assert_eq!(milestone.map(|ev| ev.tier), expected);
        if let Some(ev) = milestone {
            assert_eq!(ev.user, SENDER);
        }
    }
    let s = e.get_remit_stats(SENDER).unwrap();
    assert_eq!(s.tx_count, 27);
    assert_eq!(s.total_sent, 27 * 50);
}

#[test]
fn remittance_validation_and_collision() {
    let mut e = Engine::new(TierConfig::default());
    assert_eq!(
        e.init_remittance(SENDER, RECEIVER, 0, 1).unwrap_err(),
        BondrError::InvalidAmountZero
    );
    assert_eq!(
        e.init_remittance(SENDER, SENDER, 50, 1).unwrap_err(),
        BondrError::SelfTransfer
    );
    assert_eq!(
        e.init_remittance(SENDER, RECEIVER, 50, 0).unwrap_err(),
        BondrError::InvalidReferenceSeed
    );
    assert_eq!(
        e.init_remittance(SENDER, RECEIVER, bondr::MAX_TRANSFER_AMOUNT + 1, 1)
            .unwrap_err(),
        BondrError::AmountTooLarge
    );
    e.init_remittance(SENDER, RECEIVER, 50, 1).unwrap();
    assert_eq!(
        e.init_remittance(SENDER, RECEIVER, 50, 1).unwrap_err(),
        BondrError::AccountAlreadyInUse
    );
}

#[test]
fn remittance_claim_moves_the_recorded_amount() {
    let mut e = Engine::new(TierConfig::default());
    e.airdrop(SENDER, 100);
    e.init_remittance(SENDER, RECEIVER, 60, 1).unwrap();
    // an underfunded sender cannot perform the transfer
    let mut poor = Engine::new(TierConfig::default());
    poor.init_remittance(SENDER, RECEIVER, 60, 1).unwrap();
    assert_eq!(
        poor.claim(SENDER, RECEIVER, 1).unwrap_err(),
        BondrError::InsufficientBalance
    );
    // the funded sender can
    e.claim(SENDER, RECEIVER, 1).unwrap();
    assert_eq!(e.balance_of(SENDER), 40);
    assert_eq!(e.balance_of(RECEIVER), 60);
    assert!(e.get_remittance(SENDER, RECEIVER, 1).is_none());
    // and the record is gone
    assert_eq!(
        e.claim(SENDER, RECEIVER, 1).unwrap_err(),
        BondrError::AccountNotFound
    );
}

#[test]
fn token_rail_presence_checks() {
    assert!(validate_token_accounts(true, true, true, true).is_ok());
    assert_eq!(
        validate_token_accounts(false, true, true, true).unwrap_err(),
        BondrError::MissingTokenProgram
    );
    assert_eq!(
        validate_token_accounts(true, false, true, true).unwrap_err(),
        BondrError::MissingTokenAccounts
    );
    assert_eq!(
        validate_token_accounts(true, true, false, true).unwrap_err(),
        BondrError::MissingTokenAccounts
    );
    assert_eq!(
        validate_token_accounts(true, true, true, false).unwrap_err(),
        BondrError::MissingTokenAccounts
    );
}
