use bondr::engine::Engine;
use bondr::error::BondrError;
use bondr::tier::TierConfig;

const CLIENT: u64 = 1;
const M2: u64 = 2;
const M3: u64 = 3;
const OUTSIDER: u64 = 9;
const BENEFICIARY: u64 = 50;

fn members3() -> [u64; 5] {
    [CLIENT, M2, M3, 0, 0]
}

/// A client with a 2-of-3 multisig and a funded balance.
fn engine_with_multisig() -> Engine {
    let mut e = Engine::new(TierConfig::default());
    e.airdrop(CLIENT, 10_000);
    let ev = e.initialize_multisig_client(CLIENT, members3(), 3, 2).unwrap();
    assert_eq!(ev.client, CLIENT);
    assert_eq!(ev.member_count, 3);
    assert_eq!(ev.threshold, 2);
    e
}

#[test]
fn init_multisig_rejects_bad_counts() {
    let mut e = Engine::new(TierConfig::default());
    let r = e.initialize_multisig_client(CLIENT, members3(), 0, 1);
    assert_eq!(r.unwrap_err(), BondrError::InvalidMultisigConfig);
    let r = e.initialize_multisig_client(CLIENT, members3(), 6, 2);
    assert_eq!(r.unwrap_err(), BondrError::InvalidMultisigConfig);
    let r = e.initialize_multisig_client(CLIENT, members3(), 3, 0);
    assert_eq!(r.unwrap_err(), BondrError::InvalidMultisigConfig);
    let r = e.initialize_multisig_client(CLIENT, members3(), 3, 4);
    assert_eq!(r.unwrap_err(), BondrError::InvalidMultisigConfig);
}

#[test]
fn init_multisig_requires_creator_among_members() {
    let mut e = Engine::new(TierConfig::default());
    let r = e.initialize_multisig_client(OUTSIDER, members3(), 3, 2);
    assert_eq!(r.unwrap_err(), BondrError::InvalidMultisigConfig);
}

#[test]
fn init_multisig_rejects_duplicate_members() {
    let mut e = Engine::new(TierConfig::default());
    let r = e.initialize_multisig_client(CLIENT, [CLIENT, M2, M2, 0, 0], 3, 2);
    assert_eq!(r.unwrap_err(), BondrError::DuplicateMember);
    // the same identity in an inactive slot is no duplicate
    let r = e.initialize_multisig_client(CLIENT, [CLIENT, M2, 0, M2, M2], 2, 2);
    assert!(r.is_ok());
}

#[test]
fn init_multisig_twice_fails_with_collision() {
    let mut e = engine_with_multisig();
    let r = e.initialize_multisig_client(CLIENT, members3(), 3, 2);
    assert_eq!(r.unwrap_err(), BondrError::AccountAlreadyInUse);
}

#[test]
fn init_multisig_full_capacity() {
    let mut e = Engine::new(TierConfig::default());
    let r = e.initialize_multisig_client(CLIENT, [CLIENT, M2, M3, 7, 8], 5, 5);
    assert!(r.is_ok());
    let m = e.get_multisig(CLIENT).unwrap();
    assert_eq!(m.member_count, 5);
    assert_eq!(m.threshold, 5);
    assert!(m.pending_escrow.is_none());
}

#[test]
fn approving_without_a_config_fails_not_found() {
    let mut e = Engine::new(TierConfig::default());
    e.airdrop(CLIENT, 1000);
    // a plain escrow exists, but its funder has no multisig configuration
    e.initialize_escrow(CLIENT, BENEFICIARY, 100, 1, false, false).unwrap();
    let r = e.approve_multisig_release(M2, CLIENT, BENEFICIARY, 1);
    assert_eq!(r.unwrap_err(), BondrError::AccountNotFound);
    assert!(e.get_multisig(CLIENT).is_none());
}

#[test]
fn multisig_escrow_requires_a_config() {
    let mut e = Engine::new(TierConfig::default());
    e.airdrop(CLIENT, 1000);
    let r = e.initialize_escrow(CLIENT, BENEFICIARY, 100, 1, false, true);
    assert_eq!(r.unwrap_err(), BondrError::InvalidMultisigConfig);
}

#[test]
fn multisig_gates_only_one_escrow_at_a_time() {
    let mut e = engine_with_multisig();
    e.initialize_escrow(CLIENT, BENEFICIARY, 100, 1, false, true).unwrap();
    let r = e.initialize_escrow(CLIENT, BENEFICIARY, 100, 2, false, true);
    assert_eq!(r.unwrap_err(), BondrError::MultisigBusy);
    // a plain escrow by the same client is not gated and goes through
    let r = e.initialize_escrow(CLIENT, BENEFICIARY, 100, 3, false, false);
    assert!(r.is_ok());
}

#[test]
fn funder_cannot_release_a_gated_escrow_directly() {
    let mut e = engine_with_multisig();
    e.initialize_escrow(CLIENT, BENEFICIARY, 100, 1, false, true).unwrap();
    let r = e.release_payment(CLIENT, CLIENT, BENEFICIARY, 1);
    assert_eq!(r.unwrap_err(), BondrError::UnauthorizedSender);
}

#[test]
fn approval_by_non_member_always_fails() {
    let mut e = engine_with_multisig();
    e.initialize_escrow(CLIENT, BENEFICIARY, 100, 1, false, true).unwrap();
    let r = e.approve_multisig_release(OUTSIDER, CLIENT, BENEFICIARY, 1);
    assert_eq!(r.unwrap_err(), BondrError::NotMultisigMember);
    // an identity in an inactive slot is no member either
    let r = e.approve_multisig_release(0, CLIENT, BENEFICIARY, 1);
    assert_eq!(r.unwrap_err(), BondrError::NotMultisigMember);
}

#[test]
fn approving_a_stale_escrow_fails_mismatch() {
    let mut e = engine_with_multisig();
    e.initialize_escrow(CLIENT, BENEFICIARY, 100, 1, false, true).unwrap();
    // a second, plain escrow exists but is not the pending one
    e.initialize_escrow(CLIENT, BENEFICIARY, 100, 2, false, false).unwrap();
    let r = e.approve_multisig_release(M2, CLIENT, BENEFICIARY, 2);
    assert_eq!(r.unwrap_err(), BondrError::MultisigPendingEscrowMismatch);
}

#[test]
fn same_member_approving_twice_fails() {
    let mut e = engine_with_multisig();
    e.initialize_escrow(CLIENT, BENEFICIARY, 100, 1, false, true).unwrap();
    assert_eq!(e.approve_multisig_release(M2, CLIENT, BENEFICIARY, 1).unwrap(), false);
    let r = e.approve_multisig_release(M2, CLIENT, BENEFICIARY, 1);
    assert_eq!(r.unwrap_err(), BondrError::AlreadyApproved);
}

#[test]
fn one_approval_never_releases_at_threshold_two() {
    let mut e = engine_with_multisig();
    e.initialize_escrow(CLIENT, BENEFICIARY, 100, 1, false, true).unwrap();
    assert_eq!(e.approve_multisig_release(M3, CLIENT, BENEFICIARY, 1).unwrap(), false);
    assert!(!e.get_escrow(CLIENT, BENEFICIARY, 1).unwrap().is_released);
    let r = e.claim_payment(BENEFICIARY, CLIENT, BENEFICIARY, 1);
    assert_eq!(r.unwrap_err(), BondrError::NotReleased);
}

#[test]
fn two_distinct_approvals_release_first_pair() {
    let mut e = engine_with_multisig();
    e.initialize_escrow(CLIENT, BENEFICIARY, 100, 1, false, true).unwrap();
    assert_eq!(e.approve_multisig_release(CLIENT, CLIENT, BENEFICIARY, 1).unwrap(), false);
    assert_eq!(e.approve_multisig_release(M2, CLIENT, BENEFICIARY, 1).unwrap(), true);
    assert!(e.get_escrow(CLIENT, BENEFICIARY, 1).unwrap().is_released);
}

#[test]
fn two_distinct_approvals_release_other_pair_other_order() {
    let mut e = engine_with_multisig();
    e.initialize_escrow(CLIENT, BENEFICIARY, 100, 1, false, true).unwrap();
    assert_eq!(e.approve_multisig_release(M3, CLIENT, BENEFICIARY, 1).unwrap(), false);
    assert!(!e.get_escrow(CLIENT, BENEFICIARY, 1).unwrap().is_released);
    assert_eq!(e.approve_multisig_release(M2, CLIENT, BENEFICIARY, 1).unwrap(), true);
    assert!(e.get_escrow(CLIENT, BENEFICIARY, 1).unwrap().is_released);
}

#[test]
fn third_approval_after_release_keeps_it_released() {
    let mut e = engine_with_multisig();
    e.initialize_escrow(CLIENT, BENEFICIARY, 100, 1, false, true).unwrap();
    e.approve_multisig_release(M2, CLIENT, BENEFICIARY, 1).unwrap();
    e.approve_multisig_release(M3, CLIENT, BENEFICIARY, 1).unwrap();
    assert!(e.get_escrow(CLIENT, BENEFICIARY, 1).unwrap().is_released);
    assert_eq!(e.approve_multisig_release(CLIENT, CLIENT, BENEFICIARY, 1).unwrap(), true);
    assert!(e.get_escrow(CLIENT, BENEFICIARY, 1).unwrap().is_released);
}

#[test]
fn claim_returns_the_multisig_to_idle_for_reuse() {
    let mut e = engine_with_multisig();
    e.initialize_escrow(CLIENT, BENEFICIARY, 100, 1, false, true).unwrap();
    e.approve_multisig_release(M2, CLIENT, BENEFICIARY, 1).unwrap();
    e.approve_multisig_release(M3, CLIENT, BENEFICIARY, 1).unwrap();
    e.claim_payment(BENEFICIARY, CLIENT, BENEFICIARY, 1).unwrap();
    let m = e.get_multisig(CLIENT).unwrap();
    assert!(m.pending_escrow.is_none());
    assert!(m.approvals.iter().all(|a| !a));
    // the config can now gate a second escrow, approvals starting afresh
    e.initialize_escrow(CLIENT, BENEFICIARY, 200, 2, false, true).unwrap();
    assert_eq!(e.approve_multisig_release(M2, CLIENT, BENEFICIARY, 2).unwrap(), false);
    assert_eq!(e.approve_multisig_release(CLIENT, CLIENT, BENEFICIARY, 2).unwrap(), true);
    e.claim_payment(BENEFICIARY, CLIENT, BENEFICIARY, 2).unwrap();
    assert_eq!(e.balance_of(BENEFICIARY), 300);
}
