//! Typed failure results.  Every revert site of the vault maps to one
//! variant; an operation that fails leaves the ledger untouched.

use vstd::prelude::*;

verus! {

/// The reasons a vault operation can fail.
#[derive(Clone, Copy, Debug, PartialEq, Eq, Structural)]
pub enum VaultError {
    NoVault,
    VaultAlreadyExists,
    InsufficientCollateral,
    LtvExceeded,
    InsufficientDebt,
    InsufficientAllowance,
    WithdrawPending,
    NoWithdrawPending,
    UnbondingNotComplete,
    BelowMinDeposit,
    ContractPaused,
    Unauthorized,
    InvalidValidatorKey,
    ZeroAmount,
    Overflow,
    InsufficientLiquidBalance,
}

} // verus!
