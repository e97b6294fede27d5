//! The guarantees the vault states of itself, proved from the entry points'
//! contracts alone.  Each law quantifies over the states a contract relates,
//! so it holds of every call sequence a host can make.

use vstd::prelude::*;

use crate::events::{Borrowed, Deposited, InterestAccrued, Repaid, UndelegationRequested,
    WithdrawFinalized, WithdrawRequested};
use crate::interest::debt_now;
use crate::ltv::max_borrowable;
use crate::position::{lemma_position_of_valid, position_of, sum_collateral};
use crate::magni::{
    borrow_err, borrow_post, deposit_err, deposit_post, finalize_withdraw_err,
    finalize_withdraw_post, repay_err, repay_post, request_withdraw_err, withdraw_commit_post,
    withdraw_max_amount, withdraw_max_err, Magni,
};

verus! {

/// In a well-formed vault the global collateral aggregate equals the sum of
/// collateral over every position — after every successful call, since every
/// mutating entry point carries well-formedness from state to state.
pub proof fn lemma_total_collateral_is_sum(v: Magni)
    requires
        v.wf(),
    ensures
        sum_collateral(v.positions@) == v.total_collateral as int,
{
}

/// A successful borrow leaves the caller's debt, interest included, at or
/// under the loan-to-value ceiling of their collateral.
pub proof fn lemma_borrow_respects_ltv(
    s: Magni,
    v: Magni,
    caller: u64,
    now: u64,
    amount_wad: u128,
    out: (Option<InterestAccrued>, Borrowed),
)
    requires
        borrow_err(s, caller, now, amount_wad) is None,
        borrow_post(s, v, caller, now, amount_wad, out),
    ensures
        position_of(v.positions@, caller).debt_principal > 0,
        position_of(v.positions@, caller).debt_principal as int <= max_borrowable(
            position_of(v.positions@, caller).collateral,
        ),
{
    crate::interest::lemma_accrual_interest_bounds(position_of(s.positions@, caller), now);
}

/// A successful withdrawal request leaves any remaining debt at or under the
/// loan-to-value ceiling of the collateral left behind.
pub proof fn lemma_request_withdraw_respects_ltv(
    s: Magni,
    v: Magni,
    caller: u64,
    now: u64,
    amount: u64,
    liquid: u64,
    out: (Option<InterestAccrued>, WithdrawRequested, Option<UndelegationRequested>),
)
    requires
        request_withdraw_err(s, caller, now, amount, liquid) is None,
        withdraw_commit_post(s, v, caller, now, amount, liquid, out),
    ensures
        position_of(v.positions@, caller).debt_principal > 0
            ==> position_of(v.positions@, caller).debt_principal as int <= max_borrowable(
            position_of(v.positions@, caller).collateral,
        ),
{
}

/// Withdrawing the maximum leaves any remaining debt at or under the
/// loan-to-value ceiling of the collateral left behind, even at the exact
/// floor the debt requires.
pub proof fn lemma_withdraw_max_respects_ltv(
    s: Magni,
    v: Magni,
    caller: u64,
    now: u64,
    liquid: u64,
    out: (Option<InterestAccrued>, WithdrawRequested, Option<UndelegationRequested>),
)
    requires
        withdraw_max_err(s, caller, now, liquid) is None,
        withdraw_commit_post(
            s,
            v,
            caller,
            now,
            withdraw_max_amount(s, caller, now) as u64,
            liquid,
            out,
        ),
    ensures
        position_of(v.positions@, caller).debt_principal > 0
            ==> position_of(v.positions@, caller).debt_principal as int <= max_borrowable(
            position_of(v.positions@, caller).collateral,
        ),
{
    let p = position_of(s.positions@, caller);
    let d = debt_now(p, now);
    crate::interest::lemma_accrual_interest_bounds(p, now);
    if d > 0 {
        crate::ltv::lemma_withdraw_max_keeps_ltv(p.collateral, d as u128);
        crate::ltv::lemma_withdrawable_le_collateral(p.collateral, d as u128);
    }
}

/// A repayment offering more than the debt leaves the debt at exactly zero
/// — never negative — and consumes only the debt's worth of tokens.
pub proof fn lemma_repay_caps_at_debt(
    s: Magni,
    v: Magni,
    caller: u64,
    now: u64,
    amount_wad: u128,
    allowance: u128,
    out: (Option<InterestAccrued>, Repaid),
)
    requires
        repay_err(s, caller, now, amount_wad, allowance) is None,
        repay_post(s, v, caller, now, amount_wad, out),
        amount_wad as int >= debt_now(position_of(s.positions@, caller), now),
    ensures
        position_of(v.positions@, caller).debt_principal == 0,
        out.1.amount_wad as int == debt_now(position_of(s.positions@, caller), now),
{
}

/// The withdrawal round trip: deposit into an empty position, request the
/// whole amount back, finalize once the balance suffices — and the position
/// returns to empty, with the global collateral aggregate where it began.
pub proof fn lemma_withdraw_round_trip(
    v0: Magni,
    v1: Magni,
    v2: Magni,
    v3: Magni,
    user: u64,
    amount: u64,
    t1: u64,
    t2: u64,
    t3: u64,
    liquid2: u64,
    liquid3: u64,
    ev1: Deposited,
    out2: (Option<InterestAccrued>, WithdrawRequested, Option<UndelegationRequested>),
    ev3: WithdrawFinalized,
)
    requires
        v0.wf(),
        position_of(v0.positions@, user).status is Empty,
        deposit_err(v0, user, amount) is None,
        deposit_post(v0, v1, user, t1, amount, ev1),
        request_withdraw_err(v1, user, t2, amount, liquid2) is None,
        withdraw_commit_post(v1, v2, user, t2, amount, liquid2, out2),
        finalize_withdraw_err(v2, user, liquid3) is None,
        finalize_withdraw_post(v2, v3, user, ev3),
    ensures
        position_of(v3.positions@, user).status is Empty,
        position_of(v3.positions@, user).collateral == 0,
        position_of(v3.positions@, user).pending_withdraw == 0,
        position_of(v3.positions@, user).debt_principal == 0,
        v3.total_collateral == v0.total_collateral,
        ev3.amount_motes == amount,
{
    lemma_position_of_valid(v0.positions@, user);
}

} // verus!
