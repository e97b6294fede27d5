//! Records of successful state changes.  Each mutating entry point returns
//! the fixed-shape record of what it did; the host emits it and performs
//! the cross-contract calls it names (minting or burning the debt token,
//! delegating or undelegating stake).

use vstd::prelude::*;

verus! {

/// Collateral was deposited.
#[derive(Clone, Copy, Debug, PartialEq, Eq, Structural)]
pub struct Deposited {
    pub user: u64,
    pub amount_motes: u64,
    pub new_collateral_motes: u64,
}

/// Debt token was borrowed; the host mints `amount_wad` to `user`.
#[derive(Clone, Copy, Debug, PartialEq, Eq, Structural)]
pub struct Borrowed {
    pub user: u64,
    pub amount_wad: u128,
    pub new_debt_wad: u128,
}

/// Debt was repaid; the host transfers `amount_wad` from `user` and burns it.
#[derive(Clone, Copy, Debug, PartialEq, Eq, Structural)]
pub struct Repaid {
    pub user: u64,
    pub amount_wad: u128,
    pub new_debt_wad: u128,
}

/// A two-phase withdrawal was opened.
#[derive(Clone, Copy, Debug, PartialEq, Eq, Structural)]
pub struct WithdrawRequested {
    pub user: u64,
    pub amount_motes: u64,
}

/// A pending withdrawal was paid out; the host transfers `amount_motes` to `user`.
#[derive(Clone, Copy, Debug, PartialEq, Eq, Structural)]
pub struct WithdrawFinalized {
    pub user: u64,
    pub amount_motes: u64,
}

/// Batched deposits were delegated; the host delegates `amount_motes`.
#[derive(Clone, Copy, Debug, PartialEq, Eq, Structural)]
pub struct DelegationBatched {
    pub amount_motes: u64,
}

/// An undelegation was requested; the host undelegates `amount_motes`.
#[derive(Clone, Copy, Debug, PartialEq, Eq, Structural)]
pub struct UndelegationRequested {
    pub amount_motes: u64,
}

/// Interest was added to a user's debt principal.
#[derive(Clone, Copy, Debug, PartialEq, Eq, Structural)]
pub struct InterestAccrued {
    pub user: u64,
    pub interest_wad: u128,
    pub new_debt_wad: u128,
}

/// The contract was paused.
#[derive(Clone, Copy, Debug, PartialEq, Eq, Structural)]
pub struct Paused {
    pub by: u64,
}

/// The contract was unpaused.
#[derive(Clone, Copy, Debug, PartialEq, Eq, Structural)]
pub struct Unpaused {
    pub by: u64,
}

} // verus!
