use bondr::engine::Engine;
use bondr::error::BondrError;
use bondr::tier::TierConfig;
use bondr::MAX_TRANSFER_AMOUNT;

const FUNDER: u64 = 11;
const BENEFICIARY: u64 = 22;
const STRANGER: u64 = 33;

fn funded_engine() -> Engine {
    let mut e = Engine::new(TierConfig::default());
    e.airdrop(FUNDER, 10_000);
    e
}

#[test]
fn airdrop_credits_balance() {
    let mut e = Engine::new(TierConfig::default());
    assert_eq!(e.balance_of(7), 0);
    e.airdrop(7, 500);
    assert_eq!(e.balance_of(7), 500);
    e.airdrop(7, 250);
    assert_eq!(e.balance_of(7), 750);
    assert_eq!(e.balance_of(8), 0);
}

#[test]
fn create_fails_on_zero_amount() {
    let mut e = funded_engine();
    let r = e.initialize_escrow(FUNDER, BENEFICIARY, 0, 1, false, false);
    assert_eq!(r.unwrap_err(), BondrError::InvalidAmountZero);
}

#[test]
fn create_fails_above_maximum() {
    let mut e = Engine::new(TierConfig::default());
    e.airdrop(FUNDER, u64::MAX);
    let r = e.initialize_escrow(FUNDER, BENEFICIARY, MAX_TRANSFER_AMOUNT + 1, 1, false, false);
    assert_eq!(r.unwrap_err(), BondrError::AmountTooLarge);
}

#[test]
fn create_succeeds_at_exact_maximum() {
    let mut e = Engine::new(TierConfig::default());
    e.airdrop(FUNDER, u64::MAX);
    let r = e.initialize_escrow(FUNDER, BENEFICIARY, MAX_TRANSFER_AMOUNT, 1, false, false);
    assert!(r.is_ok());
    assert_eq!(e.vault_balance(FUNDER, BENEFICIARY, 1), MAX_TRANSFER_AMOUNT);
}

#[test]
fn create_fails_on_self_transfer() {
    let mut e = funded_engine();
    let r = e.initialize_escrow(FUNDER, FUNDER, 100, 1, false, false);
    assert_eq!(r.unwrap_err(), BondrError::SelfTransfer);
}

#[test]
fn create_fails_on_bad_reference_seed() {
    let mut e = funded_engine();
    let r = e.initialize_escrow(FUNDER, BENEFICIARY, 100, 0, false, false);
    assert_eq!(r.unwrap_err(), BondrError::InvalidReferenceSeed);
    let r = e.initialize_escrow(FUNDER, BENEFICIARY, 100, 101, false, false);
    assert_eq!(r.unwrap_err(), BondrError::InvalidReferenceSeed);
    // the bound itself is fine
    let r = e.initialize_escrow(FUNDER, BENEFICIARY, 100, 100, false, false);
    assert!(r.is_ok());
}

#[test]
fn create_fails_on_insufficient_balance() {
    let mut e = Engine::new(TierConfig::default());
    e.airdrop(FUNDER, 99);
    let r = e.initialize_escrow(FUNDER, BENEFICIARY, 100, 1, false, false);
    assert_eq!(r.unwrap_err(), BondrError::InsufficientBalance);
    // an unfunded account cannot escrow anything
    let r = e.initialize_escrow(STRANGER, BENEFICIARY, 1, 1, false, false);
    assert_eq!(r.unwrap_err(), BondrError::InsufficientBalance);
}

#[test]
fn create_emits_event_and_funds_vault() {
    let mut e = funded_engine();
    let ev = e.initialize_escrow(FUNDER, BENEFICIARY, 1000, 42, false, false).unwrap();
    assert_eq!(ev.sender, FUNDER);
    assert_eq!(ev.receiver, BENEFICIARY);
    assert_eq!(ev.amount, 1000);
    assert_eq!(ev.reference_seed, 42);
    assert!(!ev.is_token_transfer);
    assert_eq!(e.balance_of(FUNDER), 9_000);
    assert_eq!(e.vault_balance(FUNDER, BENEFICIARY, 42), 1000);
    let rec = e.get_escrow(FUNDER, BENEFICIARY, 42).unwrap();
    assert!(!rec.is_released);
    assert_eq!(rec.amount, 1000);
    assert_eq!(rec.client_multisig, None);
    // the funder's statistics record exists with zero completions
    assert_eq!(e.get_user_stats(FUNDER).unwrap().completed_escrows, 0);
}

#[test]
fn create_twice_fails_with_collision() {
    let mut e = funded_engine();
    e.initialize_escrow(FUNDER, BENEFICIARY, 1000, 1, false, false).unwrap();
    let r = e.initialize_escrow(FUNDER, BENEFICIARY, 1000, 1, false, false);
    assert_eq!(r.unwrap_err(), BondrError::AccountAlreadyInUse);
    // the collision wins regardless of amount, even an invalid one
    let r = e.initialize_escrow(FUNDER, BENEFICIARY, 0, 1, false, false);
    assert_eq!(r.unwrap_err(), BondrError::AccountAlreadyInUse);
    // a different seed is a different identity
    let r = e.initialize_escrow(FUNDER, BENEFICIARY, 1000, 2, false, false);
    assert!(r.is_ok());
}

#[test]
fn release_requires_the_funder() {
    let mut e = funded_engine();
    e.initialize_escrow(FUNDER, BENEFICIARY, 1000, 1, false, false).unwrap();
    let r = e.release_payment(STRANGER, FUNDER, BENEFICIARY, 1);
    assert_eq!(r.unwrap_err(), BondrError::UnauthorizedSender);
    let r = e.release_payment(BENEFICIARY, FUNDER, BENEFICIARY, 1);
    assert_eq!(r.unwrap_err(), BondrError::UnauthorizedSender);
    assert!(e.release_payment(FUNDER, FUNDER, BENEFICIARY, 1).is_ok());
    assert!(e.get_escrow(FUNDER, BENEFICIARY, 1).unwrap().is_released);
}

#[test]
fn release_twice_fails_already_released() {
    let mut e = funded_engine();
    e.initialize_escrow(FUNDER, BENEFICIARY, 1000, 1, false, false).unwrap();
    e.release_payment(FUNDER, FUNDER, BENEFICIARY, 1).unwrap();
    let r = e.release_payment(FUNDER, FUNDER, BENEFICIARY, 1);
    assert_eq!(r.unwrap_err(), BondrError::AlreadyReleased);
}

#[test]
fn claim_before_release_fails_not_released() {
    let mut e = funded_engine();
    e.initialize_escrow(FUNDER, BENEFICIARY, 1000, 1, false, false).unwrap();
    let r = e.claim_payment(BENEFICIARY, FUNDER, BENEFICIARY, 1);
    assert_eq!(r.unwrap_err(), BondrError::NotReleased);
}

#[test]
fn claim_requires_the_beneficiary() {
    let mut e = funded_engine();
    e.initialize_escrow(FUNDER, BENEFICIARY, 1000, 1, false, false).unwrap();
    e.release_payment(FUNDER, FUNDER, BENEFICIARY, 1).unwrap();
    let r = e.claim_payment(STRANGER, FUNDER, BENEFICIARY, 1);
    assert_eq!(r.unwrap_err(), BondrError::UnauthorizedSender);
    let r = e.claim_payment(FUNDER, FUNDER, BENEFICIARY, 1);
    assert_eq!(r.unwrap_err(), BondrError::UnauthorizedSender);
}

#[test]
fn claim_is_exactly_once() {
    let mut e = funded_engine();
    e.initialize_escrow(FUNDER, BENEFICIARY, 1000, 1, false, false).unwrap();
    e.release_payment(FUNDER, FUNDER, BENEFICIARY, 1).unwrap();
    e.claim_payment(BENEFICIARY, FUNDER, BENEFICIARY, 1).unwrap();
    // the record is destroyed: every later operation resolves to not-found
    assert!(e.get_escrow(FUNDER, BENEFICIARY, 1).is_none());
    let r = e.claim_payment(BENEFICIARY, FUNDER, BENEFICIARY, 1);
    assert_eq!(r.unwrap_err(), BondrError::AccountNotFound);
    let r = e.release_payment(FUNDER, FUNDER, BENEFICIARY, 1);
    assert_eq!(r.unwrap_err(), BondrError::AccountNotFound);
    let r = e.approve_multisig_release(FUNDER, FUNDER, BENEFICIARY, 1);
    assert_eq!(r.unwrap_err(), BondrError::AccountNotFound);
}

#[test]
fn release_on_missing_escrow_fails_not_found() {
    let mut e = funded_engine();
    let r = e.release_payment(FUNDER, FUNDER, BENEFICIARY, 9);
    assert_eq!(r.unwrap_err(), BondrError::AccountNotFound);
}

#[test]
fn end_to_end_escrow_lifecycle() {
    let mut e = Engine::new(TierConfig::default());
    e.airdrop(FUNDER, 5000);
    e.initialize_escrow(FUNDER, BENEFICIARY, 1000, 7, false, false).unwrap();
    assert_eq!(e.balance_of(FUNDER), 4000);
    assert_eq!(e.vault_balance(FUNDER, BENEFICIARY, 7), 1000);
    e.release_payment(FUNDER, FUNDER, BENEFICIARY, 7).unwrap();
    // release moves no funds
    assert_eq!(e.vault_balance(FUNDER, BENEFICIARY, 7), 1000);
    assert_eq!(e.balance_of(BENEFICIARY), 0);
    e.claim_payment(BENEFICIARY, FUNDER, BENEFICIARY, 7).unwrap();
    assert_eq!(e.balance_of(BENEFICIARY), 1000);
    assert_eq!(e.balance_of(FUNDER), 4000);
    assert_eq!(e.vault_balance(FUNDER, BENEFICIARY, 7), 0);
    assert!(e.get_escrow(FUNDER, BENEFICIARY, 7).is_none());
    assert_eq!(e.get_user_stats(BENEFICIARY).unwrap().completed_escrows, 1);
}

#[test]
fn claim_creates_then_advances_statistics() {
    let mut e = Engine::new(TierConfig::default());
    e.airdrop(FUNDER, 5000);
    for seed in 1..4u8 {
        e.initialize_escrow(FUNDER, BENEFICIARY, 100, seed, false, false).unwrap();
        e.release_payment(FUNDER, FUNDER, BENEFICIARY, seed).unwrap();
        e.claim_payment(BENEFICIARY, FUNDER, BENEFICIARY, seed).unwrap();
        assert_eq!(
            e.get_user_stats(BENEFICIARY).unwrap().completed_escrows,
            seed as u32
        );
    }
    assert_eq!(e.balance_of(BENEFICIARY), 300);
}
