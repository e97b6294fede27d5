//! The vault: the position ledger, its global aggregates, and the state
//! machine of every mutating entry point.
//!
//! The vault never talks to its host directly.  Entry points take the
//! environment readings they depend on as arguments — the caller's
//! identity, the block time `now` (seconds), the contract's immediately
//! spendable balance `liquid` (motes), the debt-token allowance granted to
//! the vault — and return the record of the change, including the amount of
//! any delegation or undelegation the host must issue.  An operation that
//! fails returns its error and leaves the vault exactly as it was: there is
//! no partial effect.

use vstd::prelude::*;

use crate::errors::VaultError;
use crate::events::{
    Borrowed, DelegationBatched, Deposited, InterestAccrued, Paused, Repaid, UndelegationRequested,
    Unpaused, WithdrawFinalized, WithdrawRequested,
};
use crate::interest::{accrual_interest, accrued_last, debt_now, debt_with_interest};
use crate::ltv::{max_borrowable, withdrawable_amount};
use crate::position::{
    has_user, position_of, sum_collateral, users_distinct, Position, PositionEntry, VaultStatus,
};
use crate::position::{
    lemma_position_of_absent, lemma_position_of_found, lemma_position_of_push,
    lemma_position_of_update, lemma_sum_collateral_bounds_entry, lemma_sum_collateral_push,
    lemma_sum_collateral_update,
};
use crate::validator_key::valid_validator_key;

verus! {

/// A complete position report, as `get_position` returns it.
#[derive(Clone, Copy, Debug, PartialEq, Eq, Structural)]
pub struct PositionInfo {
    pub collateral_motes: u64,
    pub collateral_wad: u128,
    pub debt_wad: u128,
    pub ltv_bps: u64,
    pub health_factor: u64,
    pub pending_withdraw_motes: u64,
    pub status: u8,
}

/// The vault's entire state.
pub struct Magni {
    /// Identity of the debt-token contract.
    pub mcspr: u64,
    /// The staking target, as a textual key.
    pub validator_public_key: String,
    /// The position ledger, one row per user.
    pub positions: Vec<PositionEntry>,
    /// Collateral locked across all positions, in motes.
    pub total_collateral: u64,
    /// Debt across all positions, in wad; interest enters it lazily, per
    /// user, so it approximates the sum of debts with interest.
    pub total_debt: u128,
    /// Deposits received but not yet delegated, in motes.
    pub pending_to_delegate: u64,
    /// Collateral this vault believes is delegated, in motes; the staking
    /// subsystem settles asynchronously, so this may lag its value.
    pub total_delegated: u64,
    /// Identity of the administrator.
    pub owner: u64,
    /// Whether mutating user entry points are suspended.
    pub paused: bool,
}

/// The numeric code of a status, as reports carry it.
pub open spec fn status_code(s: VaultStatus) -> int {
    match s {
        VaultStatus::Empty => 0,
        VaultStatus::Active => 1,
        VaultStatus::Withdrawing => 2,
    }
}

/// `x`, saturated to the accounting width.
pub open spec fn sat_u128(x: int) -> int {
    if x > u128::MAX {
        u128::MAX as int
    } else {
        x
    }
}

/// The smaller of two amounts.
pub open spec fn min_u64(a: u64, b: u64) -> u64 {
    if a < b {
        a
    } else {
        b
    }
}

/// The configuration fields two vault states share.
pub open spec fn same_config(s: Magni, v: Magni) -> bool {
    &&& v.mcspr == s.mcspr
    &&& v.validator_public_key == s.validator_public_key
    &&& v.owner == s.owner
    &&& v.paused == s.paused
}

/// Every user but `caller` holds the same position in `v` as in `s`.
pub open spec fn frame_except(s: Magni, v: Magni, caller: u64) -> bool {
    &&& forall|u: u64|
        u != caller ==> position_of(v.positions@, u) == position_of(s.positions@, u)
    &&& forall|u: u64| u != caller ==> (has_user(v.positions@, u) <==> has_user(s.positions@, u))
}

impl Magni {
    /// Well-formedness of the ledger: one row per user, every row
    /// internally consistent, and the global collateral aggregate equal to
    /// the sum over all rows.
    pub open spec fn wf(self) -> bool {
        &&& users_distinct(self.positions@)
        &&& sum_collateral(self.positions@) == self.total_collateral as int
        &&& forall|i: int|
            0 <= i < self.positions@.len() ==> (#[trigger] self.positions@[i]).position.valid()
    }

    /// The position of `user`, as a ledger value.
    pub open spec fn spec_position(self, user: u64) -> Position {
        position_of(self.positions@, user)
    }

    /// Create the vault: no positions, nothing aggregated, the creating
    /// caller as owner, not paused.
    pub fn init(mcspr: u64, validator_public_key: String, caller: u64) -> (v: Magni)
        ensures
            v.wf(),
            v.mcspr == mcspr,
            v.validator_public_key == validator_public_key,
            v.owner == caller,
            !v.paused,
            v.total_collateral == 0,
            v.total_debt == 0,
            v.pending_to_delegate == 0,
            v.total_delegated == 0,
            forall|u: u64| position_of(v.positions@, u) == Position::spec_empty(),
            forall|u: u64| !has_user(v.positions@, u),
    {
        let v = Magni {
            mcspr,
            validator_public_key,
            positions: Vec::new(),
            total_collateral: 0,
            total_debt: 0,
            pending_to_delegate: 0,
            total_delegated: 0,
            owner: caller,
            paused: false,
        };
        proof {
            assert forall|u: u64|
                v.spec_position(u) == Position::spec_empty() && !has_user(v.positions@, u) by {
                lemma_position_of_absent(v.positions@, u);
            }
        }
        v
    }

    /// The index of `user`'s ledger row, if there is one.
    fn find_index(&self, user: u64) -> (r: Option<usize>)
        ensures
            match r {
                Some(i) => i < self.positions@.len() && self.positions@[i as int].user == user
                    && self.spec_position(user) == self.positions@[i as int].position && has_user(
                    self.positions@,
                    user,
                ),
                None => !has_user(self.positions@, user) && self.spec_position(user)
                    == Position::spec_empty(),
            },
    {
        let n = self.positions.len();
        let mut j: usize = 0;
        while j < n
            invariant
                n == self.positions@.len(),
                j <= n,
                forall|k: int| 0 <= k < j ==> self.positions@[k].user != user,
            decreases n - j,
        {
            if self.positions[j].user == user {
                proof {
                    lemma_position_of_found(self.positions@, user, j as int);
                }
                return Some(j);
            }
            j = j + 1;
        }
        proof {
            lemma_position_of_absent(self.positions@, user);
        }
        None
    }

    /// The position of `user`: their ledger row, or the empty position.
    fn lookup(&self, user: u64) -> (r: Position)
        ensures
            r == self.spec_position(user),
    {
        match self.find_index(user) {
            Some(i) => self.positions[i].position,
            None => Position::empty(),
        }
    }

    /// Collateral locked by `user`, in motes.
    pub fn collateral_of(&self, user: u64) -> (r: u64)
        ensures
            r == self.spec_position(user).collateral,
    {
        self.lookup(user).collateral
    }

    /// Debt of `user` with interest as of `now`, in wad, without changing
    /// any state.
    pub fn debt_of(&self, user: u64, now: u64) -> (r: u128)
        ensures
            r == debt_now(self.spec_position(user), now),
    {
        let p = self.lookup(user);
        debt_with_interest(&p, now)
    }

    /// Amount of `user`'s open withdrawal, in motes.
    pub fn pending_withdraw_of(&self, user: u64) -> (r: u64)
        ensures
            r == self.spec_position(user).pending_withdraw,
    {
        self.lookup(user).pending_withdraw
    }

    /// Status code of `user`'s position: 0 empty, 1 active, 2 withdrawing.
    pub fn status_of(&self, user: u64) -> (r: u8)
        ensures
            r == status_code(self.spec_position(user).status),
    {
        match self.lookup(user).status {
            VaultStatus::Empty => 0,
            VaultStatus::Active => 1,
            VaultStatus::Withdrawing => 2,
        }
    }

    /// Collateral locked across all positions, in motes.
    pub fn total_collateral(&self) -> (r: u64)
        ensures
            r == self.total_collateral,
    {
        self.total_collateral
    }

    /// Debt across all positions, in wad.
    pub fn total_debt(&self) -> (r: u128)
        ensures
            r == self.total_debt,
    {
        self.total_debt
    }

    /// Deposits waiting to be delegated, in motes.
    pub fn pending_to_delegate(&self) -> (r: u64)
        ensures
            r == self.pending_to_delegate,
    {
        self.pending_to_delegate
    }

    /// Collateral this vault believes is delegated, in motes.
    pub fn total_delegated(&self) -> (r: u64)
        ensures
            r == self.total_delegated,
    {
        self.total_delegated
    }

    /// Identity of the debt-token contract.
    pub fn mcspr(&self) -> (r: u64)
        ensures
            r == self.mcspr,
    {
        self.mcspr
    }

    /// The staking target's textual key.
    pub fn validator_public_key(&self) -> (r: String)
        ensures
            r == self.validator_public_key,
    {
        self.validator_public_key.clone()
    }

    /// Identity of the administrator.
    pub fn owner(&self) -> (r: u64)
        ensures
            r == self.owner,
    {
        self.owner
    }

    /// Whether mutating user entry points are suspended.
    pub fn is_paused(&self) -> (r: bool)
        ensures
            r == self.paused,
    {
        self.paused
    }
}

/// Why a deposit fails, or `None` when it succeeds: the first violated
/// precondition, in the order the checks run.
pub open spec fn deposit_err(s: Magni, caller: u64, amount: u64) -> Option<VaultError> {
    if s.paused {
        Some(VaultError::ContractPaused)
    } else if amount == 0 {
        Some(VaultError::ZeroAmount)
    } else if position_of(s.positions@, caller).status is Withdrawing {
        Some(VaultError::WithdrawPending)
    } else {
        None
    }
}

/// What a successful deposit does: the caller's collateral and the global
/// collateral grow by `amount`, the amount joins the delegation batch, a
/// fresh position becomes active with its accrual clock at `now`, and
/// nothing else moves.
pub open spec fn deposit_post(s: Magni, v: Magni, caller: u64, now: u64, amount: u64, ev: Deposited) -> bool {
    let p = position_of(s.positions@, caller);
    let q = position_of(v.positions@, caller);
    &&& q.collateral == p.collateral + amount
    &&& q.debt_principal == p.debt_principal
    &&& q.pending_withdraw == p.pending_withdraw
    &&& if p.status is Empty {
        q.status is Active && q.last_accrual_time == now
    } else {
        q.status == p.status && q.last_accrual_time == p.last_accrual_time
    }
    &&& has_user(v.positions@, caller)
    &&& frame_except(s, v, caller)
    &&& v.total_collateral == s.total_collateral + amount
    &&& v.pending_to_delegate == s.pending_to_delegate + amount
    &&& v.total_debt == s.total_debt
    &&& v.total_delegated == s.total_delegated
    &&& same_config(s, v)
    &&& ev == (Deposited { user: caller, amount_motes: amount, new_collateral_motes: q.collateral })
}

impl Magni {
    /// Deposit `amount` motes of collateral for `caller`, creating the
    /// position on first contact.  A position with a withdrawal pending
    /// takes no deposits.  The amount only joins the delegation batch;
    /// nothing is delegated until the owner triggers it.
    pub fn deposit(&mut self, caller: u64, now: u64, amount: u64) -> (r: Result<
        Deposited,
        VaultError,
    >)
        requires
            old(self).wf(),
            old(self).total_collateral + amount <= u64::MAX,
            old(self).pending_to_delegate + amount <= u64::MAX,
        ensures
            final(self).wf(),
            r is Err <==> deposit_err(*old(self), caller, amount) is Some,
            r is Err ==> *final(self) == *old(self) && Some(r->Err_0) == deposit_err(
                *old(self),
                caller,
                amount,
            ),
            r is Ok ==> deposit_post(*old(self), *final(self), caller, now, amount, r->Ok_0),
    {
        if self.paused {
            return Err(VaultError::ContractPaused);
        }
        if amount == 0 {
            return Err(VaultError::ZeroAmount);
        }
        let ghost s0 = *self;
        let new_collateral: u64;
        match self.find_index(caller) {
            Some(i) => {
                proof {
                    lemma_sum_collateral_bounds_entry(self.positions@, i as int);
                }
                let mut p = self.positions[i].position;
                if p.status == VaultStatus::Withdrawing {
                    return Err(VaultError::WithdrawPending);
                }
                p.collateral = p.collateral + amount;
                if p.status == VaultStatus::Empty {
                    p.status = VaultStatus::Active;
                    p.last_accrual_time = now;
                }
                let e = PositionEntry { user: caller, position: p };
                proof {
                    lemma_sum_collateral_update(self.positions@, i as int, e);
                }
                self.positions.set(i, e);
                proof {
                    assert forall|u: u64| u != caller implies position_of(self.positions@, u)
                        == position_of(s0.positions@, u) by {
                        lemma_position_of_update(s0.positions@, i as int, e, u);
                    }
                    assert forall|u: u64| u != caller implies (has_user(self.positions@, u)
                        <==> has_user(s0.positions@, u)) by {
                        lemma_position_of_update(s0.positions@, i as int, e, u);
                    }
                    lemma_position_of_update(s0.positions@, i as int, e, caller);
                }
                new_collateral = p.collateral;
            },
            None => {
                let p = Position {
                    collateral: amount,
                    debt_principal: 0,
                    last_accrual_time: now,
                    status: VaultStatus::Active,
                    pending_withdraw: 0,
                };
                let e = PositionEntry { user: caller, position: p };
                proof {
                    lemma_sum_collateral_push(self.positions@, e);
                }
                self.positions.push(e);
                proof {
                    assert forall|u: u64| u != caller implies position_of(self.positions@, u)
                        == position_of(s0.positions@, u) by {
                        lemma_position_of_push(s0.positions@, e, u);
                    }
                    assert forall|u: u64| u != caller implies (has_user(self.positions@, u)
                        <==> has_user(s0.positions@, u)) by {
                        lemma_position_of_push(s0.positions@, e, u);
                    }
                    lemma_position_of_push(s0.positions@, e, caller);
                }
                new_collateral = amount;
            },
        }
        self.total_collateral = self.total_collateral + amount;
        self.pending_to_delegate = self.pending_to_delegate + amount;
        Ok(Deposited { user: caller, amount_motes: amount, new_collateral_motes: new_collateral })
    }

    /// Add `b` into a running wad total, saturating at the accounting width.
    fn sat_add_u128(a: u128, b: u128) -> (r: u128)
        ensures
            r == sat_u128(a + b),
    {
        if b > u128::MAX - a {
            u128::MAX
        } else {
            a + b
        }
    }

    /// Add more collateral to an existing position; the same operation as
    /// `deposit`.
    pub fn add_collateral(&mut self, caller: u64, now: u64, amount: u64) -> (r: Result<
        Deposited,
        VaultError,
    >)
        requires
            old(self).wf(),
            old(self).total_collateral + amount <= u64::MAX,
            old(self).pending_to_delegate + amount <= u64::MAX,
        ensures
            final(self).wf(),
            r is Err <==> deposit_err(*old(self), caller, amount) is Some,
            r is Err ==> *final(self) == *old(self) && Some(r->Err_0) == deposit_err(
                *old(self),
                caller,
                amount,
            ),
            r is Ok ==> deposit_post(*old(self), *final(self), caller, now, amount, r->Ok_0),
    {
        self.deposit(caller, now, amount)
    }
}

/// Why a borrow fails, or `None` when it succeeds: the first violated
/// precondition, in the order the checks run.  The loan-to-value check uses
/// the caller's debt with interest as of `now`.
pub open spec fn borrow_err(s: Magni, caller: u64, now: u64, amount_wad: u128) -> Option<
    VaultError,
> {
    let p = position_of(s.positions@, caller);
    if s.paused {
        Some(VaultError::ContractPaused)
    } else if amount_wad == 0 {
        Some(VaultError::ZeroAmount)
    } else if p.status is Empty {
        Some(VaultError::NoVault)
    } else if p.status is Withdrawing {
        Some(VaultError::WithdrawPending)
    } else if debt_now(p, now) + amount_wad > max_borrowable(p.collateral) {
        Some(VaultError::LtvExceeded)
    } else {
        None
    }
}

/// What a successful borrow does: interest is applied first, then the
/// caller's principal and the global debt grow by `amount_wad`, and the
/// host mints that amount to the caller.
pub open spec fn borrow_post(
    s: Magni,
    v: Magni,
    caller: u64,
    now: u64,
    amount_wad: u128,
    out: (Option<InterestAccrued>, Borrowed),
) -> bool {
    let p = position_of(s.positions@, caller);
    let q = position_of(v.positions@, caller);
    let i = accrual_interest(p, now);
    let d = debt_now(p, now);
    &&& q.collateral == p.collateral
    &&& q.pending_withdraw == p.pending_withdraw
    &&& q.status == p.status
    &&& q.debt_principal == d + amount_wad
    &&& q.last_accrual_time == accrued_last(p, now)
    &&& frame_except(s, v, caller)
    &&& v.total_collateral == s.total_collateral
    &&& v.pending_to_delegate == s.pending_to_delegate
    &&& v.total_delegated == s.total_delegated
    &&& v.total_debt == sat_u128(sat_u128(s.total_debt + i) + amount_wad)
    &&& same_config(s, v)
    &&& out.1 == (Borrowed {
        user: caller,
        amount_wad,
        new_debt_wad: (d + amount_wad) as u128,
    })
    &&& (out.0 is Some <==> i > 0)
    &&& (out.0 is Some ==> out.0->0 == (InterestAccrued {
        user: caller,
        interest_wad: i as u128,
        new_debt_wad: (p.debt_principal + i) as u128,
    }))
}

impl Magni {
    /// Borrow `amount_wad` of the debt token against the caller's
    /// collateral.  Interest is applied first, so the loan-to-value check
    /// sees the true current debt; the host mints `amount_wad` to the
    /// caller on success.
    pub fn borrow(&mut self, caller: u64, now: u64, amount_wad: u128) -> (r: Result<
        (Option<InterestAccrued>, Borrowed),
        VaultError,
    >)
        requires
            old(self).wf(),
        ensures
            final(self).wf(),
            r is Err <==> borrow_err(*old(self), caller, now, amount_wad) is Some,
            r is Err ==> *final(self) == *old(self) && Some(r->Err_0) == borrow_err(
                *old(self),
                caller,
                now,
                amount_wad,
            ),
            r is Ok ==> borrow_post(*old(self), *final(self), caller, now, amount_wad, r->Ok_0),
    {
        if self.paused {
            return Err(VaultError::ContractPaused);
        }
        if amount_wad == 0 {
            return Err(VaultError::ZeroAmount);
        }
        let ghost s0 = *self;
        let i = match self.find_index(caller) {
            Some(i) => i,
            None => {
                return Err(VaultError::NoVault);
            },
        };
        let p = self.positions[i].position;
        if p.status == VaultStatus::Empty {
            return Err(VaultError::NoVault);
        }
        if p.status == VaultStatus::Withdrawing {
            return Err(VaultError::WithdrawPending);
        }
        let d = debt_with_interest(&p, now);
        proof {
            crate::interest::lemma_accrual_interest_bounds(p, now);
            crate::ltv::lemma_max_borrowable_le_wad(p.collateral);
            vstd::arithmetic::mul::lemma_mul_inequality(
                p.collateral as int,
                u64::MAX as int,
                crate::MOTES_TO_WAD_FACTOR as int,
            );
        }
        if amount_wad > u128::MAX - d {
            return Err(VaultError::LtvExceeded);
        }
        let new_debt = d + amount_wad;
        if crate::ltv::exceeds_ltv(new_debt, p.collateral) {
            return Err(VaultError::LtvExceeded);
        }
        // Commit: the whole operation either happens or does not.
        let accrued = if p.debt_principal == 0 {
            0
        } else {
            d - p.debt_principal
        };
        let mut q = p;
        q.debt_principal = new_debt;
        q.last_accrual_time = if p.debt_principal == 0 {
            now
        } else if now <= p.last_accrual_time {
            p.last_accrual_time
        } else {
            now
        };
        let e = PositionEntry { user: caller, position: q };
        proof {
            lemma_sum_collateral_update(self.positions@, i as int, e);
        }
        self.positions.set(i, e);
        proof {
            assert forall|u: u64| u != caller implies position_of(self.positions@, u)
                == position_of(s0.positions@, u) by {
                lemma_position_of_update(s0.positions@, i as int, e, u);
            }
            assert forall|u: u64| u != caller implies (has_user(self.positions@, u) <==> has_user(
                s0.positions@,
                u,
            )) by {
                lemma_position_of_update(s0.positions@, i as int, e, u);
            }
            lemma_position_of_update(s0.positions@, i as int, e, caller);
        }
        self.total_debt = Self::sat_add_u128(Self::sat_add_u128(self.total_debt, accrued), amount_wad);
        let interest_record = if accrued > 0 {
            Some(
                InterestAccrued {
                    user: caller,
                    interest_wad: accrued,
                    new_debt_wad: p.debt_principal + accrued,
                },
            )
        } else {
            None
        };
        Ok(
            (
                interest_record,
                Borrowed { user: caller, amount_wad, new_debt_wad: new_debt },
            ),
        )
    }
}

/// The wad amount a repayment of `amount_wad` actually consumes: the debt
/// with interest as of `now`, where the offer exceeds it.
pub open spec fn repay_amount(s: Magni, caller: u64, now: u64, amount_wad: u128) -> int {
    let d = debt_now(position_of(s.positions@, caller), now);
    if amount_wad > d {
        d
    } else {
        amount_wad as int
    }
}

/// Why a repayment fails, or `None` when it succeeds: the first violated
/// precondition, in the order the checks run.  The allowance check is
/// against what the repayment actually consumes, never more.
pub open spec fn repay_err(
    s: Magni,
    caller: u64,
    now: u64,
    amount_wad: u128,
    allowance: u128,
) -> Option<VaultError> {
    let p = position_of(s.positions@, caller);
    if s.paused {
        Some(VaultError::ContractPaused)
    } else if amount_wad == 0 {
        Some(VaultError::ZeroAmount)
    } else if p.status is Empty {
        Some(VaultError::NoVault)
    } else if debt_now(p, now) == 0 {
        Some(VaultError::InsufficientDebt)
    } else if allowance < repay_amount(s, caller, now, amount_wad) {
        Some(VaultError::InsufficientAllowance)
    } else {
        None
    }
}

/// The global debt after `repaid` wad leaves a total that first took on
/// `i` wad of interest; the subtraction is skipped if the aggregate has
/// fallen behind it.
pub open spec fn total_debt_after_repay(total: u128, i: int, repaid: int) -> int {
    let grown = sat_u128(total + i);
    if grown >= repaid {
        grown - repaid
    } else {
        grown
    }
}

/// What a successful repayment does: interest is applied first, the debt
/// shrinks by what the repayment consumes — never below zero — and the host
/// transfers exactly that amount from the caller and burns it.
pub open spec fn repay_post(
    s: Magni,
    v: Magni,
    caller: u64,
    now: u64,
    amount_wad: u128,
    out: (Option<InterestAccrued>, Repaid),
) -> bool {
    let p = position_of(s.positions@, caller);
    let q = position_of(v.positions@, caller);
    let i = accrual_interest(p, now);
    let d = debt_now(p, now);
    let repaid = repay_amount(s, caller, now, amount_wad);
    &&& q.collateral == p.collateral
    &&& q.pending_withdraw == p.pending_withdraw
    &&& q.status == p.status
    &&& q.debt_principal == d - repaid
    &&& q.last_accrual_time == accrued_last(p, now)
    &&& frame_except(s, v, caller)
    &&& v.total_collateral == s.total_collateral
    &&& v.pending_to_delegate == s.pending_to_delegate
    &&& v.total_delegated == s.total_delegated
    &&& v.total_debt == total_debt_after_repay(s.total_debt, i, repaid)
    &&& same_config(s, v)
    &&& out.1 == (Repaid {
        user: caller,
        amount_wad: repaid as u128,
        new_debt_wad: (d - repaid) as u128,
    })
    &&& (out.0 is Some <==> i > 0)
    &&& (out.0 is Some ==> out.0->0 == (InterestAccrued {
        user: caller,
        interest_wad: i as u128,
        new_debt_wad: (p.debt_principal + i) as u128,
    }))
}

impl Magni {
    /// Repay up to `amount_wad` of the caller's debt.  An offer above the
    /// current debt is capped at the debt, so the position never owes a
    /// negative amount and only the debt's worth of tokens is consumed.
    /// `allowance` is the debt-token allowance the caller granted the
    /// vault; on success the host transfers the repaid amount from the
    /// caller and burns it.
    pub fn repay(&mut self, caller: u64, now: u64, amount_wad: u128, allowance: u128) -> (r: Result<
        (Option<InterestAccrued>, Repaid),
        VaultError,
    >)
        requires
            old(self).wf(),
        ensures
            final(self).wf(),
            r is Err <==> repay_err(*old(self), caller, now, amount_wad, allowance) is Some,
            r is Err ==> *final(self) == *old(self) && Some(r->Err_0) == repay_err(
                *old(self),
                caller,
                now,
                amount_wad,
                allowance,
            ),
            r is Ok ==> repay_post(
                *old(self),
                *final(self),
                caller,
                now,
                amount_wad,
                r->Ok_0,
            ),
    {
        if self.paused {
            return Err(VaultError::ContractPaused);
        }
        if amount_wad == 0 {
            return Err(VaultError::ZeroAmount);
        }
        let ghost s0 = *self;
        let i = match self.find_index(caller) {
            Some(i) => i,
            None => {
                return Err(VaultError::NoVault);
            },
        };
        let p = self.positions[i].position;
        if p.status == VaultStatus::Empty {
            return Err(VaultError::NoVault);
        }
        let d = debt_with_interest(&p, now);
        proof {
            crate::interest::lemma_accrual_interest_bounds(p, now);
        }
        if d == 0 {
            return Err(VaultError::InsufficientDebt);
        }
        let repaid = if amount_wad > d {
            d
        } else {
            amount_wad
        };
        if allowance < repaid {
            return Err(VaultError::InsufficientAllowance);
        }
        // Commit: the whole operation either happens or does not.
        let accrued = if p.debt_principal == 0 {
            0
        } else {
            d - p.debt_principal
        };
        let mut q = p;
        q.debt_principal = d - repaid;
        q.last_accrual_time = if p.debt_principal == 0 {
            now
        } else if now <= p.last_accrual_time {
            p.last_accrual_time
        } else {
            now
        };
        let e = PositionEntry { user: caller, position: q };
        proof {
            lemma_sum_collateral_update(self.positions@, i as int, e);
        }
        self.positions.set(i, e);
        proof {
            assert forall|u: u64| u != caller implies position_of(self.positions@, u)
                == position_of(s0.positions@, u) by {
                lemma_position_of_update(s0.positions@, i as int, e, u);
            }
            assert forall|u: u64| u != caller implies (has_user(self.positions@, u) <==> has_user(
                s0.positions@,
                u,
            )) by {
                lemma_position_of_update(s0.positions@, i as int, e, u);
            }
            lemma_position_of_update(s0.positions@, i as int, e, caller);
        }
        let grown = Self::sat_add_u128(self.total_debt, accrued);
        self.total_debt = if grown >= repaid {
            grown - repaid
        } else {
            grown
        };
        let interest_record = if accrued > 0 {
            Some(
                InterestAccrued {
                    user: caller,
                    interest_wad: accrued,
                    new_debt_wad: p.debt_principal + accrued,
                },
            )
        } else {
            None
        };
        Ok(
            (
                interest_record,
                Repaid { user: caller, amount_wad: repaid, new_debt_wad: d - repaid },
            ),
        )
    }

    /// Repay the caller's whole debt, interest included, computed at
    /// execution time.  `allowance` must cover the full debt; on success
    /// the host transfers that amount from the caller and burns it.
    pub fn repay_all(&mut self, caller: u64, now: u64, allowance: u128) -> (r: Result<
        (Option<InterestAccrued>, Repaid),
        VaultError,
    >)
        requires
            old(self).wf(),
        ensures
            final(self).wf(),
            r is Err <==> repay_all_err(*old(self), caller, now, allowance) is Some,
            r is Err ==> *final(self) == *old(self) && Some(r->Err_0) == repay_all_err(
                *old(self),
                caller,
                now,
                allowance,
            ),
            r is Ok ==> repay_all_post(*old(self), *final(self), caller, now, r->Ok_0),
    {
        if self.paused {
            return Err(VaultError::ContractPaused);
        }
        let ghost s0 = *self;
        let i = match self.find_index(caller) {
            Some(i) => i,
            None => {
                return Err(VaultError::NoVault);
            },
        };
        let p = self.positions[i].position;
        if p.status == VaultStatus::Empty {
            return Err(VaultError::NoVault);
        }
        let d = debt_with_interest(&p, now);
        proof {
            crate::interest::lemma_accrual_interest_bounds(p, now);
        }
        if d == 0 {
            return Err(VaultError::InsufficientDebt);
        }
        if allowance < d {
            return Err(VaultError::InsufficientAllowance);
        }
        // Commit: the whole operation either happens or does not.
        let accrued = if p.debt_principal == 0 {
            0
        } else {
            d - p.debt_principal
        };
        let mut q = p;
        q.debt_principal = 0;
        q.last_accrual_time = if p.debt_principal == 0 {
            now
        } else if now <= p.last_accrual_time {
            p.last_accrual_time
        } else {
            now
        };
        let e = PositionEntry { user: caller, position: q };
        proof {
            lemma_sum_collateral_update(self.positions@, i as int, e);
        }
        self.positions.set(i, e);
        proof {
            assert forall|u: u64| u != caller implies position_of(self.positions@, u)
                == position_of(s0.positions@, u) by {
                lemma_position_of_update(s0.positions@, i as int, e, u);
            }
            assert forall|u: u64| u != caller implies (has_user(self.positions@, u) <==> has_user(
                s0.positions@,
                u,
            )) by {
                lemma_position_of_update(s0.positions@, i as int, e, u);
            }
            lemma_position_of_update(s0.positions@, i as int, e, caller);
        }
        let grown = Self::sat_add_u128(self.total_debt, accrued);
        self.total_debt = if grown >= d {
            grown - d
        } else {
            grown
        };
        let interest_record = if accrued > 0 {
            Some(
                InterestAccrued {
                    user: caller,
                    interest_wad: accrued,
                    new_debt_wad: p.debt_principal + accrued,
                },
            )
        } else {
            None
        };
        Ok((interest_record, Repaid { user: caller, amount_wad: d, new_debt_wad: 0 }))
    }
}

/// Why a full repayment fails, or `None` when it succeeds.
pub open spec fn repay_all_err(s: Magni, caller: u64, now: u64, allowance: u128) -> Option<
    VaultError,
> {
    let p = position_of(s.positions@, caller);
    if s.paused {
        Some(VaultError::ContractPaused)
    } else if p.status is Empty {
        Some(VaultError::NoVault)
    } else if debt_now(p, now) == 0 {
        Some(VaultError::InsufficientDebt)
    } else if allowance < debt_now(p, now) {
        Some(VaultError::InsufficientAllowance)
    } else {
        None
    }
}

/// What a successful full repayment does: the debt with interest is
/// consumed entirely and the principal ends at zero.
pub open spec fn repay_all_post(
    s: Magni,
    v: Magni,
    caller: u64,
    now: u64,
    out: (Option<InterestAccrued>, Repaid),
) -> bool {
    let p = position_of(s.positions@, caller);
    let q = position_of(v.positions@, caller);
    let i = accrual_interest(p, now);
    let d = debt_now(p, now);
    &&& q.collateral == p.collateral
    &&& q.pending_withdraw == p.pending_withdraw
    &&& q.status == p.status
    &&& q.debt_principal == 0
    &&& q.last_accrual_time == accrued_last(p, now)
    &&& frame_except(s, v, caller)
    &&& v.total_collateral == s.total_collateral
    &&& v.pending_to_delegate == s.pending_to_delegate
    &&& v.total_delegated == s.total_delegated
    &&& v.total_debt == total_debt_after_repay(s.total_debt, i, d)
    &&& same_config(s, v)
    &&& out.1 == (Repaid { user: caller, amount_wad: d as u128, new_debt_wad: 0 })
    &&& (out.0 is Some <==> i > 0)
    &&& (out.0 is Some ==> out.0->0 == (InterestAccrued {
        user: caller,
        interest_wad: i as u128,
        new_debt_wad: (p.debt_principal + i) as u128,
    }))
}

/// The motes a withdrawal of `amount` asks the staking subsystem to return:
/// nothing while the spendable balance covers it, else the shortfall capped
/// at what the vault believes is delegated.
pub open spec fn undelegate_amount(s: Magni, amount: u64, liquid: u64) -> int {
    if liquid < amount {
        min_u64(amount, s.total_delegated) as int
    } else {
        0
    }
}

/// Whether a withdrawal of `amount` issues an undelegation: there is a
/// shortfall, something is delegated, and a staking target is on record.
pub open spec fn undelegation_happens(s: Magni, amount: u64, liquid: u64) -> bool {
    undelegate_amount(s, amount, liquid) > 0 && s.validator_public_key@.len() > 0
}

/// Whether a withdrawal of `amount` fails on the validator key: it needs an
/// undelegation but the key on record does not parse.
pub open spec fn withdraw_key_err(s: Magni, amount: u64, liquid: u64) -> bool {
    undelegation_happens(s, amount, liquid) && !valid_validator_key(s.validator_public_key@)
}

/// What opening a withdrawal of `amount` does: interest is applied, the
/// collateral leaves the position and the global aggregate at once, the
/// amount sits as pending, the position turns withdrawing, and a shortfall
/// in the spendable balance sends an undelegation to the staking subsystem.
pub open spec fn withdraw_commit_post(
    s: Magni,
    v: Magni,
    caller: u64,
    now: u64,
    amount: u64,
    liquid: u64,
    out: (Option<InterestAccrued>, WithdrawRequested, Option<UndelegationRequested>),
) -> bool {
    let p = position_of(s.positions@, caller);
    let q = position_of(v.positions@, caller);
    let i = accrual_interest(p, now);
    let d = debt_now(p, now);
    &&& q.collateral == p.collateral - amount
    &&& q.debt_principal == d
    &&& q.last_accrual_time == accrued_last(p, now)
    &&& q.status is Withdrawing
    &&& q.pending_withdraw == amount
    &&& frame_except(s, v, caller)
    &&& v.total_collateral == s.total_collateral - amount
    &&& v.pending_to_delegate == s.pending_to_delegate
    &&& v.total_debt == sat_u128(s.total_debt + i)
    &&& v.total_delegated as int == if undelegation_happens(s, amount, liquid) {
        s.total_delegated - undelegate_amount(s, amount, liquid)
    } else {
        s.total_delegated as int
    }
    &&& same_config(s, v)
    &&& out.1 == (WithdrawRequested { user: caller, amount_motes: amount })
    &&& (out.0 is Some <==> i > 0)
    &&& (out.0 is Some ==> out.0->0 == (InterestAccrued {
        user: caller,
        interest_wad: i as u128,
        new_debt_wad: (p.debt_principal + i) as u128,
    }))
    &&& (out.2 is Some <==> undelegation_happens(s, amount, liquid))
    &&& (out.2 is Some ==> out.2->0 == (UndelegationRequested {
        amount_motes: undelegate_amount(s, amount, liquid) as u64,
    }))
}

/// Why a withdrawal request fails, or `None` when it succeeds: the first
/// violated precondition, in the order the checks run.  With debt
/// outstanding, the collateral left behind must still support it.
pub open spec fn request_withdraw_err(
    s: Magni,
    caller: u64,
    now: u64,
    amount: u64,
    liquid: u64,
) -> Option<VaultError> {
    let p = position_of(s.positions@, caller);
    let d = debt_now(p, now);
    if s.paused {
        Some(VaultError::ContractPaused)
    } else if amount == 0 {
        Some(VaultError::ZeroAmount)
    } else if p.status is Empty {
        Some(VaultError::NoVault)
    } else if p.status is Withdrawing {
        Some(VaultError::WithdrawPending)
    } else if amount > p.collateral {
        Some(VaultError::InsufficientCollateral)
    } else if d > 0 && d > max_borrowable((p.collateral - amount) as u64) {
        Some(VaultError::LtvExceeded)
    } else if withdraw_key_err(s, amount, liquid) {
        Some(VaultError::InvalidValidatorKey)
    } else {
        None
    }
}

/// The most the caller can withdraw as of `now`: all collateral with no
/// debt, else what keeps the position at or under the loan-to-value
/// ceiling.
pub open spec fn withdraw_max_amount(s: Magni, caller: u64, now: u64) -> int {
    let p = position_of(s.positions@, caller);
    withdrawable_amount(p.collateral, debt_now(p, now) as u128)
}

/// Why a maximum withdrawal fails, or `None` when it succeeds.
pub open spec fn withdraw_max_err(s: Magni, caller: u64, now: u64, liquid: u64) -> Option<
    VaultError,
> {
    let p = position_of(s.positions@, caller);
    let d = debt_now(p, now);
    if s.paused {
        Some(VaultError::ContractPaused)
    } else if p.status is Empty {
        Some(VaultError::NoVault)
    } else if p.status is Withdrawing {
        Some(VaultError::WithdrawPending)
    } else if p.collateral == 0 {
        Some(VaultError::InsufficientCollateral)
    } else if d > 0 && crate::units::motes_to_wad_spec(p.collateral)
        <= crate::ltv::min_collateral_wad(d as u128) {
        Some(VaultError::LtvExceeded)
    } else if withdraw_max_amount(s, caller, now) == 0 {
        Some(VaultError::InsufficientCollateral)
    } else if withdraw_key_err(s, withdraw_max_amount(s, caller, now) as u64, liquid) {
        Some(VaultError::InvalidValidatorKey)
    } else {
        None
    }
}

/// Why finalizing fails, or `None` when it succeeds.  A spendable balance
/// short of the pending amount is the expected outcome while unbonding is
/// still in flight; the caller retries later.
pub open spec fn finalize_withdraw_err(s: Magni, caller: u64, liquid: u64) -> Option<VaultError> {
    let p = position_of(s.positions@, caller);
    if s.paused {
        Some(VaultError::ContractPaused)
    } else if !(p.status is Withdrawing) {
        Some(VaultError::NoWithdrawPending)
    } else if liquid < p.pending_withdraw {
        Some(VaultError::UnbondingNotComplete)
    } else {
        None
    }
}

/// What finalizing does: the pending amount is paid out by the host, the
/// pending field clears, and the position returns to active — or to empty,
/// if nothing is locked and nothing is owed.
pub open spec fn finalize_withdraw_post(
    s: Magni,
    v: Magni,
    caller: u64,
    out: WithdrawFinalized,
) -> bool {
    let p = position_of(s.positions@, caller);
    let q = position_of(v.positions@, caller);
    &&& q.collateral == p.collateral
    &&& q.debt_principal == p.debt_principal
    &&& q.last_accrual_time == p.last_accrual_time
    &&& q.pending_withdraw == 0
    &&& q.status == if p.collateral == 0 && p.debt_principal == 0 {
        VaultStatus::Empty
    } else {
        VaultStatus::Active
    }
    &&& frame_except(s, v, caller)
    &&& v.total_collateral == s.total_collateral
    &&& v.pending_to_delegate == s.pending_to_delegate
    &&& v.total_debt == s.total_debt
    &&& v.total_delegated == s.total_delegated
    &&& same_config(s, v)
    &&& out == (WithdrawFinalized { user: caller, amount_motes: p.pending_withdraw })
}

impl Magni {
    /// Open a withdrawal: the checked part shared by `request_withdraw` and
    /// `withdraw_max`, from the moment the amount is settled.
    fn commit_withdrawal(&mut self, i: usize, caller: u64, now: u64, amount: u64, liquid: u64) -> (r:
        Result<(Option<InterestAccrued>, WithdrawRequested, Option<UndelegationRequested>), VaultError>)
        requires
            old(self).wf(),
            i < old(self).positions@.len(),
            old(self).positions@[i as int].user == caller,
            old(self).positions@[i as int].position.status is Active,
            0 < amount <= old(self).positions@[i as int].position.collateral,
        ensures
            final(self).wf(),
            r is Err <==> withdraw_key_err(*old(self), amount, liquid),
            r is Err ==> *final(self) == *old(self) && r->Err_0 == VaultError::InvalidValidatorKey,
            r is Ok ==> withdraw_commit_post(
                *old(self),
                *final(self),
                caller,
                now,
                amount,
                liquid,
                r->Ok_0,
            ),
    {
        let ghost s0 = *self;
        proof {
            assert forall|k: int| 0 <= k < i implies s0.positions@[k].user != caller by {
                assert(s0.positions@[k].user != s0.positions@[i as int].user);
            }
            lemma_position_of_found(s0.positions@, caller, i as int);
        }
        let p = self.positions[i].position;
        let undel: u64 = if liquid < amount {
            if amount < self.total_delegated {
                amount
            } else {
                self.total_delegated
            }
        } else {
            0
        };
        let key_on_record = !self.validator_public_key.as_str().is_empty();
        if undel > 0 && key_on_record {
            if !crate::validator_key::is_valid_validator_key(self.validator_public_key.as_str()) {
                return Err(VaultError::InvalidValidatorKey);
            }
        }
        let d = debt_with_interest(&p, now);
        proof {
            crate::interest::lemma_accrual_interest_bounds(p, now);
        }
        let accrued = if p.debt_principal == 0 {
            0
        } else {
            d - p.debt_principal
        };
        let mut q = p;
        q.collateral = p.collateral - amount;
        q.debt_principal = d;
        q.last_accrual_time = if p.debt_principal == 0 {
            now
        } else if now <= p.last_accrual_time {
            p.last_accrual_time
        } else {
            now
        };
        q.status = VaultStatus::Withdrawing;
        q.pending_withdraw = amount;
        let e = PositionEntry { user: caller, position: q };
        proof {
            lemma_sum_collateral_bounds_entry(self.positions@, i as int);
            lemma_sum_collateral_update(self.positions@, i as int, e);
        }
        self.positions.set(i, e);
        proof {
            assert forall|u: u64| u != caller implies position_of(self.positions@, u)
                == position_of(s0.positions@, u) by {
                lemma_position_of_update(s0.positions@, i as int, e, u);
            }
            assert forall|u: u64| u != caller implies (has_user(self.positions@, u) <==> has_user(
                s0.positions@,
                u,
            )) by {
                lemma_position_of_update(s0.positions@, i as int, e, u);
            }
            lemma_position_of_update(s0.positions@, i as int, e, caller);
        }
        self.total_collateral = self.total_collateral - amount;
        self.total_debt = Self::sat_add_u128(self.total_debt, accrued);
        let undelegation_record = if undel > 0 && key_on_record {
            self.total_delegated = self.total_delegated - undel;
            Some(UndelegationRequested { amount_motes: undel })
        } else {
            None
        };
        let interest_record = if accrued > 0 {
            Some(
                InterestAccrued {
                    user: caller,
                    interest_wad: accrued,
                    new_debt_wad: p.debt_principal + accrued,
                },
            )
        } else {
            None
        };
        Ok(
            (
                interest_record,
                WithdrawRequested { user: caller, amount_motes: amount },
                undelegation_record,
            ),
        )
    }

    /// Request the withdrawal of `amount` motes of collateral.  The
    /// collateral stops counting immediately; the payout waits for
    /// `finalize_withdraw`.  If the spendable balance `liquid` does not
    /// cover the amount, the shortfall triggers an undelegation that the
    /// staking subsystem settles after its unbonding delay.
    pub fn request_withdraw(&mut self, caller: u64, now: u64, amount: u64, liquid: u64) -> (r:
        Result<(Option<InterestAccrued>, WithdrawRequested, Option<UndelegationRequested>), VaultError>)
        requires
            old(self).wf(),
        ensures
            final(self).wf(),
            r is Err <==> request_withdraw_err(*old(self), caller, now, amount, liquid) is Some,
            r is Err ==> *final(self) == *old(self) && Some(r->Err_0) == request_withdraw_err(
                *old(self),
                caller,
                now,
                amount,
                liquid,
            ),
            r is Ok ==> withdraw_commit_post(
                *old(self),
                *final(self),
                caller,
                now,
                amount,
                liquid,
                r->Ok_0,
            ),
    {
        if self.paused {
            return Err(VaultError::ContractPaused);
        }
        if amount == 0 {
            return Err(VaultError::ZeroAmount);
        }
        let i = match self.find_index(caller) {
            Some(i) => i,
            None => {
                return Err(VaultError::NoVault);
            },
        };
        let p = self.positions[i].position;
        if p.status == VaultStatus::Empty {
            return Err(VaultError::NoVault);
        }
        if p.status == VaultStatus::Withdrawing {
            return Err(VaultError::WithdrawPending);
        }
        if amount > p.collateral {
            return Err(VaultError::InsufficientCollateral);
        }
        let remaining = p.collateral - amount;
        let d = debt_with_interest(&p, now);
        proof {
            crate::interest::lemma_accrual_interest_bounds(p, now);
        }
        if d > 0 {
            if crate::ltv::exceeds_ltv(d, remaining) {
                return Err(VaultError::LtvExceeded);
            }
        }
        self.commit_withdrawal(i, caller, now, amount, liquid)
    }

    /// Withdraw the maximum collateral the position can spare: everything
    /// with no debt, else exactly down to the collateral floor the debt
    /// requires.  The amount is settled at execution time, interest
    /// included, and then follows the same two-phase protocol as
    /// `request_withdraw`.
    pub fn withdraw_max(&mut self, caller: u64, now: u64, liquid: u64) -> (r: Result<
        (Option<InterestAccrued>, WithdrawRequested, Option<UndelegationRequested>),
        VaultError,
    >)
        requires
            old(self).wf(),
        ensures
            final(self).wf(),
            r is Err <==> withdraw_max_err(*old(self), caller, now, liquid) is Some,
            r is Err ==> *final(self) == *old(self) && Some(r->Err_0) == withdraw_max_err(
                *old(self),
                caller,
                now,
                liquid,
            ),
            r is Ok ==> withdraw_commit_post(
                *old(self),
                *final(self),
                caller,
                now,
                withdraw_max_amount(*old(self), caller, now) as u64,
                liquid,
                r->Ok_0,
            ),
    {
        if self.paused {
            return Err(VaultError::ContractPaused);
        }
        let i = match self.find_index(caller) {
            Some(i) => i,
            None => {
                return Err(VaultError::NoVault);
            },
        };
        let p = self.positions[i].position;
        if p.status == VaultStatus::Empty {
            return Err(VaultError::NoVault);
        }
        if p.status == VaultStatus::Withdrawing {
            return Err(VaultError::WithdrawPending);
        }
        if p.collateral == 0 {
            return Err(VaultError::InsufficientCollateral);
        }
        let d = debt_with_interest(&p, now);
        proof {
            crate::interest::lemma_accrual_interest_bounds(p, now);
        }
        let amount: u64;
        if d == 0 {
            amount = p.collateral;
        } else {
            let bps = crate::BPS_DIVISOR as u128;
            let cur_wad = crate::units::motes_to_wad(p.collateral);
            proof {
                vstd::arithmetic::mul::lemma_mul_inequality(
                    p.collateral as int,
                    u64::MAX as int,
                    crate::MOTES_TO_WAD_FACTOR as int,
                );
            }
            if d > u128::MAX / bps {
                proof {
                    crate::interest::lemma_mul_div_bound(d as int, bps as int, u128::MAX as int);
                    crate::ltv::lemma_min_collateral_overflow(d);
                }
                return Err(VaultError::LtvExceeded);
            }
            proof {
                crate::interest::lemma_mul_div_bound(d as int, bps as int, u128::MAX as int);
            }
            let min_wad = d * bps / (crate::LTV_MAX_BPS as u128);
            if cur_wad <= min_wad {
                return Err(VaultError::LtvExceeded);
            }
            proof {
                crate::ltv::lemma_withdrawable_le_collateral(p.collateral, d);
            }
            amount = crate::units::wad_to_motes(cur_wad - min_wad);
        }
        if amount == 0 {
            return Err(VaultError::InsufficientCollateral);
        }
        self.commit_withdrawal(i, caller, now, amount, liquid)
    }

    /// Pay out a pending withdrawal once unbonding has settled.  `liquid`
    /// must cover the pending amount; on success the host transfers it to
    /// the caller.
    pub fn finalize_withdraw(&mut self, caller: u64, liquid: u64) -> (r: Result<
        WithdrawFinalized,
        VaultError,
    >)
        requires
            old(self).wf(),
        ensures
            final(self).wf(),
            r is Err <==> finalize_withdraw_err(*old(self), caller, liquid) is Some,
            r is Err ==> *final(self) == *old(self) && Some(r->Err_0) == finalize_withdraw_err(
                *old(self),
                caller,
                liquid,
            ),
            r is Ok ==> finalize_withdraw_post(*old(self), *final(self), caller, r->Ok_0),
    {
        if self.paused {
            return Err(VaultError::ContractPaused);
        }
        let ghost s0 = *self;
        let i = match self.find_index(caller) {
            Some(i) => i,
            None => {
                return Err(VaultError::NoWithdrawPending);
            },
        };
        let p = self.positions[i].position;
        if !(p.status == VaultStatus::Withdrawing) {
            return Err(VaultError::NoWithdrawPending);
        }
        let pending = p.pending_withdraw;
        if liquid < pending {
            return Err(VaultError::UnbondingNotComplete);
        }
        let mut q = p;
        q.pending_withdraw = 0;
        q.status = if p.collateral == 0 && p.debt_principal == 0 {
            VaultStatus::Empty
        } else {
            VaultStatus::Active
        };
        let e = PositionEntry { user: caller, position: q };
        proof {
            lemma_sum_collateral_update(self.positions@, i as int, e);
        }
        self.positions.set(i, e);
        proof {
            assert forall|u: u64| u != caller implies position_of(self.positions@, u)
                == position_of(s0.positions@, u) by {
                lemma_position_of_update(s0.positions@, i as int, e, u);
            }
            assert forall|u: u64| u != caller implies (has_user(self.positions@, u) <==> has_user(
                s0.positions@,
                u,
            )) by {
                lemma_position_of_update(s0.positions@, i as int, e, u);
            }
            lemma_position_of_update(s0.positions@, i as int, e, caller);
        }
        Ok(WithdrawFinalized { user: caller, amount_motes: pending })
    }
}

/// Why pausing fails, or `None` when it succeeds: only the owner may pause,
/// and pausing an already paused contract is rejected, not absorbed.
pub open spec fn pause_err(s: Magni, caller: u64) -> Option<VaultError> {
    if caller != s.owner {
        Some(VaultError::Unauthorized)
    } else if s.paused {
        Some(VaultError::ContractPaused)
    } else {
        None
    }
}

/// Why unpausing fails, or `None` when it succeeds.
pub open spec fn unpause_err(s: Magni, caller: u64) -> Option<VaultError> {
    if caller != s.owner {
        Some(VaultError::Unauthorized)
    } else if !s.paused {
        Some(VaultError::ContractPaused)
    } else {
        None
    }
}

/// Whether triggering the delegation batch issues a delegation: something
/// is pending, a staking target is on record, and the pending amount —
/// capped at the spendable balance — meets the delegation minimum.
pub open spec fn delegation_happens(s: Magni, liquid: u64) -> bool {
    &&& s.pending_to_delegate > 0
    &&& s.validator_public_key@.len() > 0
    &&& min_u64(s.pending_to_delegate, liquid) >= crate::MIN_DELEGATION_MOTES
}

/// Why triggering the delegation batch fails, or `None` when it succeeds;
/// an amount below the minimum is a quiet no-op, not a failure.
pub open spec fn force_delegate_err(s: Magni, caller: u64, liquid: u64) -> Option<VaultError> {
    if caller != s.owner {
        Some(VaultError::Unauthorized)
    } else if delegation_happens(s, liquid) && !valid_validator_key(s.validator_public_key@) {
        Some(VaultError::InvalidValidatorKey)
    } else {
        None
    }
}

/// What triggering the delegation batch does: when the batch goes out, the
/// host delegates the capped pending amount, the vault's delegation belief
/// grows by it, and the batch empties; otherwise nothing changes.
pub open spec fn force_delegate_post(
    s: Magni,
    v: Magni,
    liquid: u64,
    out: Option<DelegationBatched>,
) -> bool {
    if delegation_happens(s, liquid) {
        &&& v == (Magni {
            total_delegated: (s.total_delegated + min_u64(s.pending_to_delegate, liquid)) as u64,
            pending_to_delegate: 0,
            ..s
        })
        &&& out == Some(
            DelegationBatched { amount_motes: min_u64(s.pending_to_delegate, liquid) },
        )
    } else {
        v == s && out is None
    }
}

impl Magni {
    /// Suspend all mutating user entry points (owner only).
    pub fn pause(&mut self, caller: u64) -> (r: Result<Paused, VaultError>)
        ensures
            r is Err <==> pause_err(*old(self), caller) is Some,
            r is Err ==> *final(self) == *old(self) && Some(r->Err_0) == pause_err(
                *old(self),
                caller,
            ),
            r is Ok ==> *final(self) == (Magni { paused: true, ..*old(self) }) && r->Ok_0 == (Paused {
                by: caller,
            }),
    {
        if caller != self.owner {
            return Err(VaultError::Unauthorized);
        }
        if self.paused {
            return Err(VaultError::ContractPaused);
        }
        self.paused = true;
        Ok(Paused { by: caller })
    }

    /// Lift the suspension (owner only).
    pub fn unpause(&mut self, caller: u64) -> (r: Result<Unpaused, VaultError>)
        ensures
            r is Err <==> unpause_err(*old(self), caller) is Some,
            r is Err ==> *final(self) == *old(self) && Some(r->Err_0) == unpause_err(
                *old(self),
                caller,
            ),
            r is Ok ==> *final(self) == (Magni { paused: false, ..*old(self) }) && r->Ok_0
                == (Unpaused { by: caller }),
    {
        if caller != self.owner {
            return Err(VaultError::Unauthorized);
        }
        if !self.paused {
            return Err(VaultError::ContractPaused);
        }
        self.paused = false;
        Ok(Unpaused { by: caller })
    }

    /// Replace the staking target's key (owner only).
    pub fn set_validator_public_key(&mut self, caller: u64, new_key: String) -> (r: Result<
        (),
        VaultError,
    >)
        ensures
            r is Err <==> caller != old(self).owner,
            r is Err ==> *final(self) == *old(self) && r->Err_0 == VaultError::Unauthorized,
            r is Ok ==> *final(self) == (Magni { validator_public_key: new_key, ..*old(self) }),
    {
        if caller != self.owner {
            return Err(VaultError::Unauthorized);
        }
        self.validator_public_key = new_key;
        Ok(())
    }

    /// Send the accumulated deposit batch to the staking subsystem (owner
    /// only).  The batch goes out only when its amount, capped at the
    /// spendable balance `liquid`, meets the delegation minimum; otherwise
    /// the funds stay pending.
    pub fn force_delegate(&mut self, caller: u64, liquid: u64) -> (r: Result<
        Option<DelegationBatched>,
        VaultError,
    >)
        requires
            old(self).total_delegated + old(self).pending_to_delegate <= u64::MAX,
        ensures
            r is Err <==> force_delegate_err(*old(self), caller, liquid) is Some,
            r is Err ==> *final(self) == *old(self) && Some(r->Err_0) == force_delegate_err(
                *old(self),
                caller,
                liquid,
            ),
            r is Ok ==> force_delegate_post(*old(self), *final(self), liquid, r->Ok_0),
    {
        if caller != self.owner {
            return Err(VaultError::Unauthorized);
        }
        let pending = self.pending_to_delegate;
        if pending == 0 {
            return Ok(None);
        }
        if self.validator_public_key.as_str().is_empty() {
            return Ok(None);
        }
        let delegate_amount = if pending < liquid {
            pending
        } else {
            liquid
        };
        if delegate_amount < crate::MIN_DELEGATION_MOTES {
            return Ok(None);
        }
        if !crate::validator_key::is_valid_validator_key(self.validator_public_key.as_str()) {
            return Err(VaultError::InvalidValidatorKey);
        }
        self.total_delegated = self.total_delegated + delegate_amount;
        self.pending_to_delegate = 0;
        Ok(Some(DelegationBatched { amount_motes: delegate_amount }))
    }

    /// Loan-to-value of `user`'s position as of `now`, in basis points.
    pub fn ltv_of(&self, user: u64, now: u64) -> (r: u64)
        requires
            self.spec_position(user).collateral > 0 ==> debt_now(self.spec_position(user), now) * (
            crate::BPS_DIVISOR as int) <= u128::MAX,
            crate::ltv::ltv_bps(
                self.spec_position(user).collateral,
                debt_now(self.spec_position(user), now),
            ) <= u64::MAX,
        ensures
            r == crate::ltv::ltv_bps(
                self.spec_position(user).collateral,
                debt_now(self.spec_position(user), now),
            ),
    {
        let p = self.lookup(user);
        if p.collateral == 0 {
            return 0;
        }
        let wad = crate::units::motes_to_wad(p.collateral);
        let d = debt_with_interest(&p, now);
        proof {
            vstd::arithmetic::mul::lemma_mul_inequality(
                1,
                p.collateral as int,
                crate::MOTES_TO_WAD_FACTOR as int,
            );
        }
        (d * (crate::BPS_DIVISOR as u128) / wad) as u64
    }

    /// Health factor of `user`'s position as of `now`, in basis points:
    /// the borrowing ceiling over the actual debt, or the largest
    /// representable value with no debt.
    pub fn health_factor_of(&self, user: u64, now: u64) -> (r: u64)
        requires
            crate::ltv::health_factor_bps(
                self.spec_position(user).collateral,
                debt_now(self.spec_position(user), now),
            ) <= u64::MAX,
        ensures
            r == crate::ltv::health_factor_bps(
                self.spec_position(user).collateral,
                debt_now(self.spec_position(user), now),
            ),
    {
        let p = self.lookup(user);
        let d = debt_with_interest(&p, now);
        if d == 0 {
            return u64::MAX;
        }
        let ceiling = crate::ltv::max_borrowable_wad(p.collateral);
        proof {
            crate::ltv::lemma_max_borrowable_le_wad(p.collateral);
            vstd::arithmetic::mul::lemma_mul_inequality(
                p.collateral as int,
                u64::MAX as int,
                crate::MOTES_TO_WAD_FACTOR as int,
            );
            vstd::arithmetic::mul::lemma_mul_inequality(
                ceiling as int,
                (u64::MAX as int) * (crate::MOTES_TO_WAD_FACTOR as int),
                crate::BPS_DIVISOR as int,
            );
        }
        (ceiling * (crate::BPS_DIVISOR as u128) / d) as u64
    }

    /// The most collateral `user` could withdraw as of `now` while staying
    /// at or under the loan-to-value ceiling; zero when nothing can leave.
    pub fn max_withdraw_of(&self, user: u64, now: u64) -> (r: u64)
        ensures
            r == withdrawable_amount(
                self.spec_position(user).collateral,
                debt_now(self.spec_position(user), now) as u128,
            ),
    {
        let p = self.lookup(user);
        if p.collateral == 0 {
            return 0;
        }
        let d = debt_with_interest(&p, now);
        proof {
            crate::interest::lemma_accrual_interest_bounds(p, now);
        }
        crate::ltv::withdrawable(p.collateral, d)
    }

    /// The complete position report for `user` as of `now`.
    pub fn get_position(&self, user: u64, now: u64) -> (r: PositionInfo)
        requires
            self.spec_position(user).collateral > 0 ==> debt_now(self.spec_position(user), now) * (
            crate::BPS_DIVISOR as int) <= u128::MAX,
            crate::ltv::ltv_bps(
                self.spec_position(user).collateral,
                debt_now(self.spec_position(user), now),
            ) <= u64::MAX,
            crate::ltv::health_factor_bps(
                self.spec_position(user).collateral,
                debt_now(self.spec_position(user), now),
            ) <= u64::MAX,
        ensures
            r.collateral_motes == self.spec_position(user).collateral,
            r.collateral_wad == crate::units::motes_to_wad_spec(
                self.spec_position(user).collateral,
            ),
            r.debt_wad == debt_now(self.spec_position(user), now),
            r.ltv_bps == crate::ltv::ltv_bps(
                self.spec_position(user).collateral,
                debt_now(self.spec_position(user), now),
            ),
            r.health_factor == crate::ltv::health_factor_bps(
                self.spec_position(user).collateral,
                debt_now(self.spec_position(user), now),
            ),
            r.pending_withdraw_motes == self.spec_position(user).pending_withdraw,
            r.status == status_code(self.spec_position(user).status),
    {
        let p = self.lookup(user);
        let collateral_wad = crate::units::motes_to_wad(p.collateral);
        let debt_wad = debt_with_interest(&p, now);
        let ltv = self.ltv_of(user, now);
        let hf = self.health_factor_of(user, now);
        let status = match p.status {
            VaultStatus::Empty => 0,
            VaultStatus::Active => 1,
            VaultStatus::Withdrawing => 2,
        };
        PositionInfo {
            collateral_motes: p.collateral,
            collateral_wad,
            debt_wad,
            ltv_bps: ltv,
            health_factor: hf,
            pending_withdraw_motes: p.pending_withdraw,
            status,
        }
    }
}

} // verus!
