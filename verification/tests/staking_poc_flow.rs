//! The delegation-tracking contract: staking, unstaking, and the checks on
//! amounts and validator keys.

use magni_vault::staking_poc::{StakingPoC, StakingPocError};
use magni_vault::MOTES_PER_CSPR;

const OWNER: u64 = 0;

fn validator_hex() -> String {
    let mut key = String::from("01");
    for _ in 0..32 {
        key.push_str("ab");
    }
    key
}

#[test]
fn test_stake_tracks_total() {
    let mut poc = StakingPoC::init(OWNER);
    assert_eq!(poc.owner(), OWNER);
    assert_eq!(poc.total_delegated(), 0);

    let amount = 500 * MOTES_PER_CSPR;
    let staked = poc.stake(OWNER, validator_hex(), amount).unwrap();
    assert_eq!(staked.amount, amount);
    assert_eq!(poc.total_delegated(), amount);
}

#[test]
fn test_stake_rejects_zero_and_bad_keys() {
    let mut poc = StakingPoC::init(OWNER);
    assert_eq!(poc.stake(OWNER, validator_hex(), 0), Err(StakingPocError::ZeroAmount));
    assert_eq!(poc.stake(OWNER, String::new(), 5), Err(StakingPocError::InvalidValidatorKey));
    assert_eq!(
        poc.stake(OWNER, String::from("03ab"), 5),
        Err(StakingPocError::InvalidValidatorKey)
    );
    assert_eq!(poc.total_delegated(), 0);
}

#[test]
fn test_unstake_shrinks_total_within_bounds() {
    let mut poc = StakingPoC::init(OWNER);
    let amount = 500 * MOTES_PER_CSPR;
    poc.stake(OWNER, validator_hex(), amount).unwrap();

    poc.request_unstake(OWNER, validator_hex(), 100 * MOTES_PER_CSPR).unwrap();
    assert_eq!(poc.total_delegated(), 400 * MOTES_PER_CSPR);

    // Asking back more than the tracked total leaves the total untouched.
    poc.request_unstake(OWNER, validator_hex(), 900 * MOTES_PER_CSPR).unwrap();
    assert_eq!(poc.total_delegated(), 400 * MOTES_PER_CSPR);
}
