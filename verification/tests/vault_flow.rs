//! End-to-end flows through the vault: deposit, borrow, repay, the
//! two-phase withdrawal, interest accrual, pause gating and delegation
//! batching.

use magni_vault::units::motes_to_wad;
use magni_vault::magni::Magni;
use magni_vault::{BPS_DIVISOR, LTV_MAX_BPS, MOTES_PER_CSPR, WAD};

const OWNER: u64 = 0;
const USER: u64 = 1;
const MCSPR: u64 = 77;

/// A validator key with the 32-byte-key algorithm tag.
fn validator_hex() -> String {
    let mut key = String::from("01");
    for _ in 0..32 {
        key.push_str("ab");
    }
    key
}

fn cspr_to_motes(cspr: u64) -> u64 {
    cspr * MOTES_PER_CSPR
}

fn max_borrow_wad(collateral_motes: u64) -> u128 {
    motes_to_wad(collateral_motes) * LTV_MAX_BPS as u128 / BPS_DIVISOR as u128
}

fn deploy_vault() -> Magni {
    Magni::init(MCSPR, validator_hex(), OWNER)
}

// ==========================================
// Basic flow
// ==========================================

#[test]
fn test_deposit_creates_vault() {
    let mut vault = deploy_vault();
    let deposit_amount = cspr_to_motes(100);
    vault.deposit(USER, 0, deposit_amount).unwrap();

    assert_eq!(vault.status_of(USER), 1); // Active
    assert_eq!(vault.collateral_of(USER), deposit_amount);
    assert_eq!(vault.debt_of(USER, 0), 0);
    assert_eq!(vault.total_collateral(), deposit_amount);
}

#[test]
fn test_deposit_adds_to_existing_collateral() {
    let mut vault = deploy_vault();
    let first_deposit = cspr_to_motes(100);
    let second_deposit = cspr_to_motes(50);

    vault.deposit(USER, 0, first_deposit).unwrap();
    vault.add_collateral(USER, 0, second_deposit).unwrap();

    assert_eq!(vault.collateral_of(USER), first_deposit + second_deposit);
}

#[test]
fn test_borrow_success() {
    let mut vault = deploy_vault();
    let deposit_amount = cspr_to_motes(1000);
    vault.deposit(USER, 0, deposit_amount).unwrap();

    // Borrow 50% of max (well within the LTV limit).
    let borrow_amount = max_borrow_wad(deposit_amount) / 2;
    let (_, minted) = vault.borrow(USER, 0, borrow_amount).unwrap();

    assert_eq!(vault.debt_of(USER, 0), borrow_amount);
    // The host mints exactly the borrowed amount to the user.
    assert_eq!(minted.amount_wad, borrow_amount);
}

#[test]
fn test_borrow_max_ltv() {
    let mut vault = deploy_vault();
    let deposit_amount = cspr_to_motes(1000);
    vault.deposit(USER, 0, deposit_amount).unwrap();

    // Borrow exactly max LTV (80%).
    let max_borrow = max_borrow_wad(deposit_amount);
    let (_, minted) = vault.borrow(USER, 0, max_borrow).unwrap();

    assert_eq!(vault.debt_of(USER, 0), max_borrow);
    assert_eq!(minted.amount_wad, max_borrow);
}

#[test]
#[should_panic(expected = "LtvExceeded")]
fn test_borrow_exceeds_ltv_reverts() {
    let mut vault = deploy_vault();
    let deposit_amount = cspr_to_motes(1000);
    vault.deposit(USER, 0, deposit_amount).unwrap();

    let excess_borrow = max_borrow_wad(deposit_amount) + 1;
    vault.borrow(USER, 0, excess_borrow).unwrap();
}

#[test]
#[should_panic(expected = "NoVault")]
fn test_borrow_without_vault_reverts() {
    let mut vault = deploy_vault();
    vault.borrow(USER, 0, 100).unwrap();
}

// ==========================================
// Repay
// ==========================================

#[test]
fn test_repay_partial() {
    let mut vault = deploy_vault();
    let deposit_amount = cspr_to_motes(1000);
    vault.deposit(USER, 0, deposit_amount).unwrap();

    let borrow_amount = max_borrow_wad(deposit_amount) / 2;
    vault.borrow(USER, 0, borrow_amount).unwrap();

    // Approve and repay half.
    let repay_amount = borrow_amount / 2;
    vault.repay(USER, 0, repay_amount, repay_amount).unwrap();

    assert_eq!(vault.debt_of(USER, 0), borrow_amount - repay_amount);
}

#[test]
fn test_repay_full() {
    let mut vault = deploy_vault();
    let deposit_amount = cspr_to_motes(1000);
    vault.deposit(USER, 0, deposit_amount).unwrap();

    let borrow_amount = max_borrow_wad(deposit_amount) / 2;
    vault.borrow(USER, 0, borrow_amount).unwrap();

    vault.repay(USER, 0, borrow_amount, borrow_amount).unwrap();

    assert_eq!(vault.debt_of(USER, 0), 0);
}

#[test]
fn test_repay_more_than_debt_caps_at_debt() {
    let mut vault = deploy_vault();
    let deposit_amount = cspr_to_motes(1000);
    vault.deposit(USER, 0, deposit_amount).unwrap();

    let borrow_amount = 100 * WAD;
    vault.borrow(USER, 0, borrow_amount).unwrap();

    // Offer more than the debt.
    let large_amount = borrow_amount * 2;
    let (_, repaid) = vault.repay(USER, 0, large_amount, large_amount).unwrap();

    // Debt is zero, not negative, and only the debt's worth was consumed.
    assert_eq!(vault.debt_of(USER, 0), 0);
    assert_eq!(repaid.amount_wad, borrow_amount);
}

#[test]
#[should_panic(expected = "InsufficientAllowance")]
fn test_repay_without_allowance_reverts() {
    let mut vault = deploy_vault();
    let deposit_amount = cspr_to_motes(1000);
    vault.deposit(USER, 0, deposit_amount).unwrap();

    let borrow_amount = 100 * WAD;
    vault.borrow(USER, 0, borrow_amount).unwrap();

    // Repay without any allowance granted.
    vault.repay(USER, 0, borrow_amount, 0).unwrap();
}

// ==========================================
// Two-phase withdrawal
// ==========================================

#[test]
fn test_withdraw_request_no_debt() {
    let mut vault = deploy_vault();
    let deposit_amount = cspr_to_motes(100);
    vault.deposit(USER, 0, deposit_amount).unwrap();

    vault.request_withdraw(USER, 0, deposit_amount, deposit_amount).unwrap();

    assert_eq!(vault.status_of(USER), 2); // Withdrawing
    assert_eq!(vault.pending_withdraw_of(USER), deposit_amount);
    assert_eq!(vault.collateral_of(USER), 0);
}

#[test]
fn test_finalize_withdraw_with_liquid_balance() {
    let mut vault = deploy_vault();
    // A deposit below the delegation minimum stays liquid.
    let deposit_amount = cspr_to_motes(100);
    vault.deposit(USER, 0, deposit_amount).unwrap();

    vault.request_withdraw(USER, 0, deposit_amount, deposit_amount).unwrap();
    vault.finalize_withdraw(USER, deposit_amount).unwrap();

    assert_eq!(vault.status_of(USER), 0); // Empty again
    assert_eq!(vault.collateral_of(USER), 0);
    assert_eq!(vault.pending_withdraw_of(USER), 0);
}

#[test]
fn test_withdraw_partial_maintains_ltv() {
    let mut vault = deploy_vault();
    let deposit_amount = cspr_to_motes(1000);
    vault.deposit(USER, 0, deposit_amount).unwrap();

    // Borrow 40% LTV.
    let borrow_amount = max_borrow_wad(deposit_amount) / 2;
    vault.borrow(USER, 0, borrow_amount).unwrap();

    // Withdraw 50% of collateral: this leaves LTV at exactly the 80% cap.
    let withdraw_amount = deposit_amount / 2;
    vault.request_withdraw(USER, 0, withdraw_amount, deposit_amount).unwrap();

    assert_eq!(vault.status_of(USER), 2); // Withdrawing
}

#[test]
#[should_panic(expected = "LtvExceeded")]
fn test_withdraw_exceeds_ltv_reverts() {
    let mut vault = deploy_vault();
    let deposit_amount = cspr_to_motes(1000);
    vault.deposit(USER, 0, deposit_amount).unwrap();

    // Borrow max (80% LTV).
    let borrow_amount = max_borrow_wad(deposit_amount);
    vault.borrow(USER, 0, borrow_amount).unwrap();

    // Withdrawing anything would push the LTV past the cap.
    vault.request_withdraw(USER, 0, 1, deposit_amount).unwrap();
}

#[test]
#[should_panic(expected = "WithdrawPending")]
fn test_double_withdraw_request_reverts() {
    let mut vault = deploy_vault();
    let deposit_amount = cspr_to_motes(100);
    vault.deposit(USER, 0, deposit_amount).unwrap();

    vault.request_withdraw(USER, 0, deposit_amount / 2, deposit_amount).unwrap();
    vault.request_withdraw(USER, 0, deposit_amount / 2, deposit_amount).unwrap();
}

// ==========================================
// Unit conversion
// ==========================================

#[test]
fn test_motes_to_wad_conversion() {
    let mut vault = deploy_vault();

    // 1 CSPR = 1e9 motes = 1e18 wad.
    let one_cspr_motes = cspr_to_motes(1);
    let one_cspr_wad = motes_to_wad(one_cspr_motes);

    vault.deposit(USER, 0, one_cspr_motes).unwrap();

    let position = vault.get_position(USER, 0);
    assert_eq!(position.collateral_motes, one_cspr_motes);
    assert_eq!(position.collateral_wad, one_cspr_wad);
    assert_eq!(one_cspr_wad, WAD);
}

#[test]
fn test_ltv_calculation() {
    let mut vault = deploy_vault();
    let deposit_amount = cspr_to_motes(1000);
    vault.deposit(USER, 0, deposit_amount).unwrap();

    // Borrow 50% of the collateral's value.
    let collateral_wad = motes_to_wad(deposit_amount);
    let borrow_amount = collateral_wad / 2;
    vault.borrow(USER, 0, borrow_amount).unwrap();

    assert_eq!(vault.ltv_of(USER, 0), 5000);
    // Health factor: 8000 / 5000 * 10000 = 16000.
    assert_eq!(vault.health_factor_of(USER, 0), 16000);
}

// ==========================================
// Interest accrual
// ==========================================

#[test]
fn test_interest_accrues_over_time() {
    let mut vault = deploy_vault();
    let deposit_amount = cspr_to_motes(1000);
    vault.deposit(USER, 0, deposit_amount).unwrap();

    let borrow_amount = 100 * WAD;
    vault.borrow(USER, 0, borrow_amount).unwrap();

    let debt_before = vault.debt_of(USER, 0);
    assert_eq!(debt_before, borrow_amount);

    // Advance time by one year.
    let one_year_later = 31_536_000;
    let debt_after = vault.debt_of(USER, one_year_later);

    assert!(debt_after > debt_before, "Debt should increase with interest");
}

#[test]
fn test_interest_affects_ltv() {
    let mut vault = deploy_vault();
    let deposit_amount = cspr_to_motes(1000);
    vault.deposit(USER, 0, deposit_amount).unwrap();

    // Borrow near max: 99% of the ceiling.
    let max_borrow = max_borrow_wad(deposit_amount);
    let borrow_amount = max_borrow - max_borrow / 100;
    vault.borrow(USER, 0, borrow_amount).unwrap();

    let ltv_before = vault.ltv_of(USER, 0);

    // Advance time by one year.
    let one_year_later = 31_536_000;
    let ltv_after = vault.ltv_of(USER, one_year_later);

    assert!(ltv_after > ltv_before);
}

// ==========================================
// Admin
// ==========================================

#[test]
fn test_pause_unpause() {
    let mut vault = deploy_vault();

    vault.pause(OWNER).unwrap();
    assert!(vault.is_paused());

    vault.unpause(OWNER).unwrap();
    assert!(!vault.is_paused());
}

#[test]
#[should_panic(expected = "ContractPaused")]
fn test_deposit_when_paused_reverts() {
    let mut vault = deploy_vault();
    vault.pause(OWNER).unwrap();

    vault.deposit(USER, 0, cspr_to_motes(100)).unwrap();
}

#[test]
#[should_panic(expected = "Unauthorized")]
fn test_pause_by_non_owner_reverts() {
    let mut vault = deploy_vault();
    vault.pause(USER).unwrap();
}

// ==========================================
// Edge cases
// ==========================================

#[test]
#[should_panic(expected = "ZeroAmount")]
fn test_deposit_zero_reverts() {
    let mut vault = deploy_vault();
    vault.deposit(USER, 0, 0).unwrap();
}

#[test]
#[should_panic(expected = "ZeroAmount")]
fn test_borrow_zero_reverts() {
    let mut vault = deploy_vault();
    vault.deposit(USER, 0, cspr_to_motes(100)).unwrap();
    vault.borrow(USER, 0, 0).unwrap();
}

// ==========================================
// Delegation batching
// ==========================================

#[test]
fn test_delegation_batching_below_minimum() {
    let mut vault = deploy_vault();
    // 100 CSPR is below the 500 CSPR delegation minimum.
    let deposit_amount = cspr_to_motes(100);
    vault.deposit(USER, 0, deposit_amount).unwrap();

    assert_eq!(vault.pending_to_delegate(), deposit_amount);
    assert_eq!(vault.total_delegated(), 0);
}

#[test]
fn test_delegation_batching_above_minimum() {
    let mut vault = deploy_vault();
    // 600 CSPR is above the 500 CSPR delegation minimum.
    let deposit_amount = cspr_to_motes(600);
    vault.deposit(USER, 0, deposit_amount).unwrap();

    // Delegation is not automatic: the deposit accumulates as pending.
    assert_eq!(vault.pending_to_delegate(), deposit_amount);
    assert_eq!(vault.total_delegated(), 0);

    // The owner triggers the batch manually.
    let batched = vault.force_delegate(OWNER, deposit_amount).unwrap();

    assert_eq!(vault.pending_to_delegate(), 0);
    assert_eq!(vault.total_delegated(), deposit_amount);
    // The host is told to delegate exactly the batched amount.
    assert_eq!(batched.unwrap().amount_motes, deposit_amount);
}
