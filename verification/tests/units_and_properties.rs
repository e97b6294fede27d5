//! Unit conversions, validator key parsing, exact interest values, the
//! maximum withdrawal, and one input for each error the vault can raise.

use magni_vault::errors::VaultError;
use magni_vault::interest::interest_on;
use magni_vault::units::{motes_to_wad, wad_to_motes};
use magni_vault::validator_key::{hex_decode, parse_validator_key};
use magni_vault::magni::Magni;
use magni_vault::{MOTES_PER_CSPR, WAD};

const OWNER: u64 = 0;
const USER: u64 = 1;
const MCSPR: u64 = 77;

fn validator_hex() -> String {
    let mut key = String::from("01");
    for _ in 0..32 {
        key.push_str("ab");
    }
    key
}

fn deploy_vault() -> Magni {
    Magni::init(MCSPR, validator_hex(), OWNER)
}

// ==========================================
// Unit converter
// ==========================================

#[test]
fn test_wad_to_motes_truncates_down() {
    assert_eq!(wad_to_motes(1_999_999_999), 1);
    assert_eq!(wad_to_motes(999_999_999), 0);
    assert_eq!(wad_to_motes(WAD), MOTES_PER_CSPR as u64);
}

#[test]
fn test_motes_wad_round_trip() {
    for motes in [0u64, 1, 42, 1_000_000_000, u64::MAX] {
        assert_eq!(wad_to_motes(motes_to_wad(motes)), motes);
    }
}

// ==========================================
// Validator keys
// ==========================================

#[test]
fn test_hex_decode_valid() {
    assert_eq!(hex_decode("01ab"), vec![0x01, 0xab]);
    assert_eq!(hex_decode("DEadBEef"), vec![0xde, 0xad, 0xbe, 0xef]);
    assert_eq!(hex_decode(""), Vec::<u8>::new());
}

#[test]
fn test_hex_decode_rejects_bad_input() {
    // Odd length.
    assert_eq!(hex_decode("abc"), Vec::<u8>::new());
    // Not hex.
    assert_eq!(hex_decode("zz"), Vec::<u8>::new());
}

#[test]
fn test_parse_validator_key_tags_and_lengths() {
    // Tag 1 takes a 32-byte key.
    let key32 = parse_validator_key(&validator_hex()).unwrap();
    assert_eq!(key32.algorithm_tag, 1);
    assert_eq!(key32.key_bytes.len(), 32);

    // Tag 2 takes a 33-byte key.
    let mut hex33 = String::from("02");
    for _ in 0..33 {
        hex33.push_str("cd");
    }
    let key33 = parse_validator_key(&hex33).unwrap();
    assert_eq!(key33.algorithm_tag, 2);
    assert_eq!(key33.key_bytes.len(), 33);

    // An unknown tag is rejected.
    let mut hex_bad_tag = String::from("03");
    for _ in 0..32 {
        hex_bad_tag.push_str("ab");
    }
    assert_eq!(parse_validator_key(&hex_bad_tag), Err(VaultError::InvalidValidatorKey));

    // A length mismatch is rejected.
    assert_eq!(parse_validator_key("01abcd"), Err(VaultError::InvalidValidatorKey));
    // An empty or non-hex string is rejected.
    assert_eq!(parse_validator_key(""), Err(VaultError::InvalidValidatorKey));
    assert_eq!(parse_validator_key("zz"), Err(VaultError::InvalidValidatorKey));
}

// ==========================================
// Interest: exact values
// ==========================================

#[test]
fn test_interest_exact_two_percent_per_year() {
    // 2% simple interest on 100 whole tokens over one year is exactly 2.
    assert_eq!(interest_on(100 * WAD, 31_536_000), 2 * WAD);
    // Half a year gives exactly 1.
    assert_eq!(interest_on(100 * WAD, 31_536_000 / 2), WAD);
    // No time, no interest.
    assert_eq!(interest_on(100 * WAD, 0), 0);
}

#[test]
fn test_debt_grows_by_two_percent_over_a_year() {
    let mut vault = deploy_vault();
    vault.deposit(USER, 0, 1000 * MOTES_PER_CSPR).unwrap();
    vault.borrow(USER, 0, 100 * WAD).unwrap();

    let debt_before = vault.debt_of(USER, 0);
    let debt_after = vault.debt_of(USER, 31_536_000);
    assert_eq!(debt_after, 102 * WAD);
    assert!(debt_after > debt_before);
}

// ==========================================
// Loan-to-value boundaries
// ==========================================

#[test]
fn test_borrow_exactly_at_ceiling() {
    let mut vault = deploy_vault();
    // 1000 native units convert to 1000e9 on the fixed-point scale.
    vault.deposit(USER, 0, 1000).unwrap();

    // Exactly 80% of 1000e9 succeeds and sits at 8000 basis points.
    vault.borrow(USER, 0, 800_000_000_000).unwrap();
    assert_eq!(vault.ltv_of(USER, 0), 8000);
}

#[test]
fn test_borrow_one_past_ceiling_reverts() {
    let mut vault = deploy_vault();
    vault.deposit(USER, 0, 1000).unwrap();

    let r = vault.borrow(USER, 0, 800_000_000_000 + 1);
    assert_eq!(r.unwrap_err(), VaultError::LtvExceeded);
}

#[test]
fn test_deposit_twice_accumulates() {
    let mut vault = deploy_vault();
    vault.deposit(USER, 0, 100).unwrap();
    vault.add_collateral(USER, 0, 100).unwrap();
    assert_eq!(vault.collateral_of(USER), 200);
}

#[test]
fn test_health_factor_max_with_no_debt() {
    let mut vault = deploy_vault();
    vault.deposit(USER, 0, 100).unwrap();
    assert_eq!(vault.health_factor_of(USER, 0), u64::MAX);
    assert_eq!(vault.ltv_of(USER, 0), 0);
}

// ==========================================
// Maximum withdrawal
// ==========================================

#[test]
fn test_withdraw_max_without_debt_takes_everything() {
    let mut vault = deploy_vault();
    let deposit_amount = 100 * MOTES_PER_CSPR;
    vault.deposit(USER, 0, deposit_amount).unwrap();

    assert_eq!(vault.max_withdraw_of(USER, 0), deposit_amount);
    vault.withdraw_max(USER, 0, deposit_amount).unwrap();
    assert_eq!(vault.pending_withdraw_of(USER), deposit_amount);
    assert_eq!(vault.collateral_of(USER), 0);
}

#[test]
fn test_withdraw_max_with_debt_stops_at_floor() {
    let mut vault = deploy_vault();
    // 1000 motes of collateral, 400e9 wad of debt: the floor is 500 motes.
    vault.deposit(USER, 0, 1000).unwrap();
    vault.borrow(USER, 0, 400_000_000_000).unwrap();

    assert_eq!(vault.max_withdraw_of(USER, 0), 500);
    vault.withdraw_max(USER, 0, 1000).unwrap();
    assert_eq!(vault.pending_withdraw_of(USER), 500);
    assert_eq!(vault.collateral_of(USER), 500);
    // The remaining position sits exactly at the ceiling.
    assert_eq!(vault.ltv_of(USER, 0), 8000);
}

#[test]
fn test_withdraw_max_at_ceiling_reverts() {
    let mut vault = deploy_vault();
    vault.deposit(USER, 0, 1000).unwrap();
    vault.borrow(USER, 0, 800_000_000_000).unwrap();

    let r = vault.withdraw_max(USER, 0, 1000);
    assert_eq!(r.unwrap_err(), VaultError::LtvExceeded);
}

// ==========================================
// Withdrawal protocol and undelegation
// ==========================================

#[test]
fn test_withdraw_shortfall_requests_undelegation() {
    let mut vault = deploy_vault();
    let deposit_amount = 600 * MOTES_PER_CSPR;
    vault.deposit(USER, 0, deposit_amount).unwrap();
    vault.force_delegate(OWNER, deposit_amount).unwrap();
    assert_eq!(vault.total_delegated(), deposit_amount);

    // Everything is delegated, so a withdrawal finds no liquid balance and
    // asks the staking subsystem for the shortfall.
    let withdraw_amount = 100 * MOTES_PER_CSPR;
    let (_, _, undelegation) = vault.request_withdraw(USER, 0, withdraw_amount, 0).unwrap();
    assert_eq!(undelegation.unwrap().amount_motes, withdraw_amount);
    assert_eq!(vault.total_delegated(), deposit_amount - withdraw_amount);
}

#[test]
fn test_finalize_before_unbonding_then_after() {
    let mut vault = deploy_vault();
    let deposit_amount = 600 * MOTES_PER_CSPR;
    vault.deposit(USER, 0, deposit_amount).unwrap();
    vault.force_delegate(OWNER, deposit_amount).unwrap();

    let withdraw_amount = 100 * MOTES_PER_CSPR;
    vault.request_withdraw(USER, 0, withdraw_amount, 0).unwrap();

    // While unbonding is in flight the balance is short: retry later.
    let early = vault.finalize_withdraw(USER, 0);
    assert_eq!(early.unwrap_err(), VaultError::UnbondingNotComplete);

    // Once the balance is topped up, the same call succeeds.
    let paid = vault.finalize_withdraw(USER, withdraw_amount).unwrap();
    assert_eq!(paid.amount_motes, withdraw_amount);
    assert_eq!(vault.status_of(USER), 1); // collateral remains: Active
    assert_eq!(vault.pending_withdraw_of(USER), 0);
}

#[test]
fn test_second_withdraw_request_rejected_while_pending() {
    let mut vault = deploy_vault();
    let deposit_amount = 100 * MOTES_PER_CSPR;
    vault.deposit(USER, 0, deposit_amount).unwrap();

    vault.request_withdraw(USER, 0, deposit_amount / 2, deposit_amount).unwrap();
    let again = vault.request_withdraw(USER, 0, deposit_amount / 2, deposit_amount);
    assert_eq!(again.unwrap_err(), VaultError::WithdrawPending);
}

// ==========================================
// One input for each remaining error
// ==========================================

#[test]
fn test_deposit_while_withdrawing_rejected() {
    let mut vault = deploy_vault();
    let deposit_amount = 100 * MOTES_PER_CSPR;
    vault.deposit(USER, 0, deposit_amount).unwrap();
    vault.request_withdraw(USER, 0, deposit_amount / 2, deposit_amount).unwrap();

    // A withdrawing position can only finalize.
    let r = vault.deposit(USER, 0, deposit_amount);
    assert_eq!(r.unwrap_err(), VaultError::WithdrawPending);
}

#[test]
fn test_withdraw_more_than_collateral_reverts() {
    let mut vault = deploy_vault();
    vault.deposit(USER, 0, 100).unwrap();
    let r = vault.request_withdraw(USER, 0, 101, 100);
    assert_eq!(r.unwrap_err(), VaultError::InsufficientCollateral);
}

#[test]
fn test_repay_with_no_debt_reverts() {
    let mut vault = deploy_vault();
    vault.deposit(USER, 0, 100).unwrap();
    let r = vault.repay(USER, 0, 10, 10);
    assert_eq!(r.unwrap_err(), VaultError::InsufficientDebt);
}

#[test]
fn test_finalize_without_request_reverts() {
    let mut vault = deploy_vault();
    vault.deposit(USER, 0, 100).unwrap();
    let r = vault.finalize_withdraw(USER, 100);
    assert_eq!(r.unwrap_err(), VaultError::NoWithdrawPending);
}

#[test]
fn test_withdraw_with_bad_key_and_shortfall_reverts() {
    let mut vault = deploy_vault();
    let deposit_amount = 600 * MOTES_PER_CSPR;
    vault.deposit(USER, 0, deposit_amount).unwrap();
    vault.force_delegate(OWNER, deposit_amount).unwrap();

    // The key on record turns invalid after the delegation went out.
    vault.set_validator_public_key(OWNER, String::from("zz")).unwrap();

    // The shortfall needs an undelegation, which the bad key blocks.
    let r = vault.request_withdraw(USER, 0, 100 * MOTES_PER_CSPR, 0);
    assert_eq!(r.unwrap_err(), VaultError::InvalidValidatorKey);
}

#[test]
fn test_unpause_when_not_paused_reverts() {
    let mut vault = deploy_vault();
    let r = vault.unpause(OWNER);
    assert_eq!(r.unwrap_err(), VaultError::ContractPaused);
}

#[test]
fn test_set_validator_key_owner_only() {
    let mut vault = deploy_vault();
    let r = vault.set_validator_public_key(USER, String::from("01ab"));
    assert_eq!(r.unwrap_err(), VaultError::Unauthorized);

    vault.set_validator_public_key(OWNER, validator_hex()).unwrap();
    assert_eq!(vault.validator_public_key(), validator_hex());
}

#[test]
fn test_repay_all_clears_interest_bearing_debt() {
    let mut vault = deploy_vault();
    vault.deposit(USER, 0, 1000 * MOTES_PER_CSPR).unwrap();
    vault.borrow(USER, 0, 100 * WAD).unwrap();

    // A year later the debt is 102 whole tokens; repay it all at once.
    let one_year_later = 31_536_000;
    let debt = vault.debt_of(USER, one_year_later);
    assert_eq!(debt, 102 * WAD);

    let (_, repaid) = vault.repay_all(USER, one_year_later, debt).unwrap();
    assert_eq!(repaid.amount_wad, debt);
    assert_eq!(vault.debt_of(USER, one_year_later), 0);
}

#[test]
fn test_force_delegate_below_minimum_is_a_no_op() {
    let mut vault = deploy_vault();
    // 100 CSPR is below the 500 CSPR delegation minimum.
    let deposit_amount = 100 * MOTES_PER_CSPR;
    vault.deposit(USER, 0, deposit_amount).unwrap();

    let batched = vault.force_delegate(OWNER, deposit_amount).unwrap();
    assert!(batched.is_none());
    assert_eq!(vault.pending_to_delegate(), deposit_amount);
    assert_eq!(vault.total_delegated(), 0);
}

#[test]
fn test_get_position_reports_all_fields() {
    let mut vault = deploy_vault();
    vault.deposit(USER, 0, 1000).unwrap();
    vault.borrow(USER, 0, 400_000_000_000).unwrap();

    let position = vault.get_position(USER, 0);
    assert_eq!(position.collateral_motes, 1000);
    assert_eq!(position.collateral_wad, 1_000_000_000_000);
    assert_eq!(position.debt_wad, 400_000_000_000);
    assert_eq!(position.ltv_bps, 4000);
    assert_eq!(position.health_factor, 20000);
    assert_eq!(position.pending_withdraw_motes, 0);
    assert_eq!(position.status, 1);
}

#[test]
fn test_round_trip_deposit_withdraw_finalize() {
    let mut vault = deploy_vault();
    let deposit_amount = 100 * MOTES_PER_CSPR;
    vault.deposit(USER, 0, deposit_amount).unwrap();
    vault.request_withdraw(USER, 1, deposit_amount, deposit_amount).unwrap();
    vault.finalize_withdraw(USER, deposit_amount).unwrap();

    assert_eq!(vault.status_of(USER), 0);
    assert_eq!(vault.collateral_of(USER), 0);
    assert_eq!(vault.pending_withdraw_of(USER), 0);
    assert_eq!(vault.total_collateral(), 0);
}
