//! Behavior of the share ledger: initialization, whitelist gating,
//! minting under the cap, transfers, and the pause flag.

use receivables_core::errors::TokenError;
use receivables_core::token::FundToken;

const ADMIN: u64 = 1;
const A: u64 = 10;
const B: u64 = 11;

fn fresh(max_supply: i64) -> FundToken {
    let mut t = FundToken::new();
    let r = t.initialize(ADMIN, b"Fund Shares".to_vec(), b"FSH".to_vec(), max_supply);
    assert_eq!(r, Ok(()));
    t
}

#[test]
fn initialize_twice_is_rejected() {
    let mut t = fresh(1000);
    let r = t.initialize(ADMIN, b"Again".to_vec(), b"AGN".to_vec(), 500);
    assert_eq!(r, Err(TokenError::AlreadyInitialized));
    assert_eq!(t.max_supply(), 1000);
}

#[test]
fn initialize_rejects_bad_arguments() {
    let mut t = FundToken::new();
    assert_eq!(
        t.initialize(ADMIN, b"".to_vec(), b"FSH".to_vec(), 1000),
        Err(TokenError::InvalidAmount)
    );
    assert_eq!(
        t.initialize(ADMIN, b"Fund".to_vec(), b"FSH".to_vec(), 0),
        Err(TokenError::InvalidAmount)
    );
    assert_eq!(
        t.initialize(ADMIN, b"Fund".to_vec(), b"FSH".to_vec(), -5),
        Err(TokenError::InvalidAmount)
    );
}

#[test]
fn metadata_views() {
    let t = fresh(1000);
    assert_eq!(t.name().as_slice(), b"Fund Shares");
    assert_eq!(t.symbol().as_slice(), b"FSH");
    assert_eq!(t.decimals(), 7);
    assert_eq!(t.admin(), ADMIN);
    assert_eq!(t.max_supply(), 1000);
    assert_eq!(t.total_supply(), 0);
    assert!(!t.is_paused());
}

#[test]
fn whitelist_add_and_remove() {
    let mut t = fresh(1000);
    assert!(!t.is_whitelisted(A));
    assert_eq!(t.whitelist_add(ADMIN, A), Ok(()));
    assert!(t.is_whitelisted(A));
    assert_eq!(t.whitelist_add(ADMIN, A), Ok(()));
    assert!(t.is_whitelisted(A));
    assert_eq!(t.whitelist_remove(ADMIN, A), Ok(()));
    assert!(!t.is_whitelisted(A));
}

#[test]
fn whitelist_is_admin_only() {
    let mut t = fresh(1000);
    assert_eq!(t.whitelist_add(A, A), Err(TokenError::NotAdmin));
    assert_eq!(t.whitelist_remove(A, A), Err(TokenError::NotAdmin));
    assert!(!t.is_whitelisted(A));
}

#[test]
fn whitelist_remove_of_absent_address_is_a_noop_success() {
    let mut t = fresh(1000);
    assert_eq!(t.whitelist_add(ADMIN, A), Ok(()));
    assert_eq!(t.whitelist_remove(ADMIN, B), Ok(()));
    assert!(t.is_whitelisted(A));
    assert!(!t.is_whitelisted(B));
}

#[test]
fn mint_requires_admin_and_whitelist() {
    let mut t = fresh(1000);
    assert_eq!(t.mint(A, A, 10), Err(TokenError::NotAdmin));
    assert_eq!(t.mint(ADMIN, A, 10), Err(TokenError::NotWhitelisted));
    assert_eq!(t.balance(A), 0);
    assert_eq!(t.total_supply(), 0);
}

#[test]
fn mint_rejects_non_positive_amounts() {
    let mut t = fresh(1000);
    t.whitelist_add(ADMIN, A).unwrap();
    assert_eq!(t.mint(ADMIN, A, 0), Err(TokenError::InvalidAmount));
    assert_eq!(t.mint(ADMIN, A, -3), Err(TokenError::InvalidAmount));
    assert_eq!(t.total_supply(), 0);
}

#[test]
fn mint_and_transfer_are_rejected_while_paused() {
    let mut t = fresh(1000);
    t.whitelist_add(ADMIN, A).unwrap();
    t.whitelist_add(ADMIN, B).unwrap();
    t.mint(ADMIN, A, 100).unwrap();
    assert_eq!(t.set_pause(A, true), Err(TokenError::NotAdmin));
    assert_eq!(t.set_pause(ADMIN, true), Ok(()));
    assert!(t.is_paused());
    assert_eq!(t.mint(ADMIN, A, 1), Err(TokenError::Paused));
    assert_eq!(t.transfer(A, B, 1), Err(TokenError::Paused));
    assert_eq!(t.set_pause(ADMIN, false), Ok(()));
    assert_eq!(t.mint(ADMIN, A, 1), Ok(()));
}

#[test]
fn mint_up_to_cap_then_overflow_is_rejected() {
    let mut t = fresh(1000);
    t.whitelist_add(ADMIN, A).unwrap();
    assert_eq!(t.mint(ADMIN, A, 1000), Ok(()));
    assert_eq!(t.total_supply(), 1000);
    assert_eq!(t.mint(ADMIN, A, 1), Err(TokenError::SupplyOverflow));
    assert_eq!(t.total_supply(), 1000);
    assert_eq!(t.balance(A), 1000);
}

#[test]
fn mint_to_non_whitelisted_leaves_state_unchanged() {
    let mut t = fresh(1000);
    t.whitelist_add(ADMIN, A).unwrap();
    t.mint(ADMIN, A, 100).unwrap();
    assert_eq!(t.mint(ADMIN, B, 50), Err(TokenError::NotWhitelisted));
    assert_eq!(t.total_supply(), 100);
    assert_eq!(t.balance(A), 100);
    assert_eq!(t.balance(B), 0);
}

#[test]
fn transfer_round_trip() {
    let mut t = fresh(1000);
    t.whitelist_add(ADMIN, A).unwrap();
    t.whitelist_add(ADMIN, B).unwrap();
    t.mint(ADMIN, A, 100).unwrap();
    assert_eq!(t.transfer(A, B, 40), Ok(()));
    assert_eq!(t.balance(A), 60);
    assert_eq!(t.balance(B), 40);
    assert_eq!(t.total_supply(), 100);
}

#[test]
fn transfer_with_insufficient_balance_leaves_state_unchanged() {
    let mut t = fresh(1000);
    t.whitelist_add(ADMIN, A).unwrap();
    t.whitelist_add(ADMIN, B).unwrap();
    t.mint(ADMIN, A, 30).unwrap();
    assert_eq!(t.transfer(A, B, 31), Err(TokenError::InsufficientBalance));
    assert_eq!(t.balance(A), 30);
    assert_eq!(t.balance(B), 0);
    assert_eq!(t.total_supply(), 30);
}

#[test]
fn transfer_checks_recipient_whitelist_only() {
    let mut t = fresh(1000);
    t.whitelist_add(ADMIN, A).unwrap();
    t.whitelist_add(ADMIN, B).unwrap();
    t.mint(ADMIN, A, 50).unwrap();
    // The sender may keep transferring after losing its membership.
    t.whitelist_remove(ADMIN, A).unwrap();
    assert_eq!(t.transfer(A, B, 20), Ok(()));
    assert_eq!(t.balance(A), 30);
    // But a removed recipient is refused.
    assert_eq!(t.transfer(B, A, 5), Err(TokenError::NotWhitelisted));
    assert_eq!(t.transfer(A, B, 0), Err(TokenError::InvalidAmount));
}

#[test]
fn self_transfer_conserves_the_balance() {
    let mut t = fresh(1000);
    t.whitelist_add(ADMIN, A).unwrap();
    t.mint(ADMIN, A, 100).unwrap();
    assert_eq!(t.transfer(A, A, 60), Ok(()));
    assert_eq!(t.balance(A), 100);
    assert_eq!(t.total_supply(), 100);
}
