//! Minimal delegation bookkeeping: a contract that forwards attached funds
//! to a validator and tracks how much it believes is delegated.  The
//! delegate and undelegate calls themselves are the host's; this ledger
//! validates the inputs and keeps the running total.

use vstd::prelude::*;

use crate::validator_key::valid_validator_key;

verus! {

/// The reasons a staking operation can fail.
#[derive(Clone, Copy, Debug, PartialEq, Eq, Structural)]
pub enum StakingPocError {
    ZeroAmount,
    InvalidValidatorKey,
    DelegationFailed,
    UndelegationFailed,
    InsufficientDelegation,
}

/// Funds were staked; the host delegates `amount` motes to `validator`.
#[derive(Debug, PartialEq, Eq)]
pub struct Staked {
    pub caller: u64,
    pub validator: String,
    pub amount: u64,
}

/// An unstake was requested; the host undelegates `amount` motes.
#[derive(Debug, PartialEq, Eq)]
pub struct UnstakeRequested {
    pub caller: u64,
    pub validator: String,
    pub amount: u64,
}

/// The delegation-tracking contract: an owner and a running total.
pub struct StakingPoC {
    /// Identity of the creating caller.
    pub owner: u64,
    /// Motes this contract believes it has delegated; the staking
    /// subsystem's own figure is authoritative.
    pub total_delegated: u64,
}

/// Why staking fails, or `None` when it succeeds.
pub open spec fn stake_err(validator_public_key: Seq<char>, amount: u64) -> Option<
    StakingPocError,
> {
    if amount == 0 {
        Some(StakingPocError::ZeroAmount)
    } else if !valid_validator_key(validator_public_key) {
        Some(StakingPocError::InvalidValidatorKey)
    } else {
        None
    }
}

impl StakingPoC {
    /// Create the contract with the creating caller as owner and nothing
    /// delegated.
    pub fn init(caller: u64) -> (r: StakingPoC)
        ensures
            r.owner == caller,
            r.total_delegated == 0,
    {
        StakingPoC { owner: caller, total_delegated: 0 }
    }

    /// Stake the attached `amount` with the validator named by
    /// `validator_public_key`; the host performs the delegation.
    pub fn stake(&mut self, caller: u64, validator_public_key: String, amount: u64) -> (r: Result<
        Staked,
        StakingPocError,
    >)
        requires
            old(self).total_delegated + amount <= u64::MAX,
        ensures
            r is Err <==> stake_err(validator_public_key@, amount) is Some,
            r is Err ==> *final(self) == *old(self) && Some(r->Err_0) == stake_err(
                validator_public_key@,
                amount,
            ),
            r is Ok ==> final(self).total_delegated == old(self).total_delegated + amount
                && final(self).owner == old(self).owner && r->Ok_0 == (Staked {
                caller,
                validator: validator_public_key,
                amount,
            }),
    {
        if amount == 0 {
            return Err(StakingPocError::ZeroAmount);
        }
        if validator_public_key.as_str().is_empty() {
            return Err(StakingPocError::InvalidValidatorKey);
        }
        if !crate::validator_key::is_valid_validator_key(validator_public_key.as_str()) {
            return Err(StakingPocError::InvalidValidatorKey);
        }
        self.total_delegated = self.total_delegated + amount;
        Ok(Staked { caller, validator: validator_public_key, amount })
    }

    /// Request `amount` motes back from the validator; the host performs
    /// the undelegation, which settles after the unbonding delay.  The
    /// tracked total only shrinks while it covers the amount.
    pub fn request_unstake(
        &mut self,
        caller: u64,
        validator_public_key: String,
        amount: u64,
    ) -> (r: Result<UnstakeRequested, StakingPocError>)
        ensures
            r is Err <==> stake_err(validator_public_key@, amount) is Some,
            r is Err ==> *final(self) == *old(self) && Some(r->Err_0) == stake_err(
                validator_public_key@,
                amount,
            ),
            r is Ok ==> final(self).total_delegated as int == (if old(self).total_delegated
                >= amount {
                old(self).total_delegated - amount
            } else {
                old(self).total_delegated as int
            }) && final(self).owner == old(self).owner && r->Ok_0 == (UnstakeRequested {
                caller,
                validator: validator_public_key,
                amount,
            }),
    {
        if amount == 0 {
            return Err(StakingPocError::ZeroAmount);
        }
        if validator_public_key.as_str().is_empty() {
            return Err(StakingPocError::InvalidValidatorKey);
        }
        if !crate::validator_key::is_valid_validator_key(validator_public_key.as_str()) {
            return Err(StakingPocError::InvalidValidatorKey);
        }
        if self.total_delegated >= amount {
            self.total_delegated = self.total_delegated - amount;
        }
        Ok(UnstakeRequested { caller, validator: validator_public_key, amount })
    }

    /// Motes this contract believes it has delegated.
    pub fn total_delegated(&self) -> (r: u64)
        ensures
            r == self.total_delegated,
    {
        self.total_delegated
    }

    /// Identity of the owner.
    pub fn owner(&self) -> (r: u64)
        ensures
            r == self.owner,
    {
        self.owner
    }
}

} // verus!
