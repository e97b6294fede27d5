//! A collateral-debt vault ledger.
//!
//! Users lock a native staking asset (9 decimal places, "motes") as
//! collateral and borrow a synthetic debt token (18 decimal places, "wad")
//! against it, up to an 80% loan-to-value ceiling.  Debt accrues 2% simple
//! annual interest, and withdrawals follow a two-phase request/finalize
//! protocol bounded by the staking subsystem's unbonding delay.
//!
//! The vault is a pure state machine: every entry point receives the
//! environment readings it depends on (caller identity, block time, the
//! contract's spendable balance, a token allowance) as plain values and
//! returns the record of the change, including any delegation or
//! undelegation the host must issue to the staking subsystem.

use vstd::prelude::*;

pub mod errors;
pub mod events;
pub mod interest;
pub mod ltv;
pub mod position;
pub mod staking_poc;
pub mod units;
pub mod validator_key;
pub mod magni;
pub mod laws;

verus! {

/// One whole unit of the native asset, in motes (9 decimal places).
pub const MOTES_PER_CSPR: u64 = 1_000_000_000;

/// Conversion factor from motes (9 decimals) to wad (18 decimals).
pub const MOTES_TO_WAD_FACTOR: u64 = 1_000_000_000;

/// One whole debt-token unit, in wad (18 decimal places).
pub const WAD: u128 = 1_000_000_000_000_000_000;

/// Maximum loan-to-value ratio, in basis points (80%).
pub const LTV_MAX_BPS: u64 = 8000;

/// Basis-point divisor.
pub const BPS_DIVISOR: u64 = 10_000;

/// Simple annual interest rate on debt, in basis points (2%).
pub const INTEREST_RATE_BPS: u64 = 200;

/// Seconds per year (365 days).
pub const SECONDS_PER_YEAR: u64 = 31_536_000;

/// Minimum amount the staking subsystem accepts for one delegation.
pub const MIN_DELEGATION_MOTES: u64 = 500_000_000_000;

} // verus!
