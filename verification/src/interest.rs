//! Simple interest on debt principal.
//!
//! Interest is applied lazily, per user, whenever an operation touches the
//! user's debt: `interest = floor(principal * rate * elapsed / (seconds per
//! year * basis-point divisor))`.  If the widened intermediate product or
//! the resulting principal would not fit the accounting width, the accrual
//! saturates to zero interest rather than failing, so that interest itself
//! can never make an operation impossible.

use vstd::prelude::*;

use crate::position::Position;

verus! {

/// The divisor of the interest formula: seconds per year times the
/// basis-point divisor.
pub open spec fn interest_divisor() -> int {
    (crate::SECONDS_PER_YEAR as int) * (crate::BPS_DIVISOR as int)
}

/// Interest owed on `principal` after `elapsed` seconds, or zero where the
/// widened product overflows the accounting width.
pub open spec fn raw_interest(principal: u128, elapsed: u64) -> int {
    let product = (principal as int) * (crate::INTEREST_RATE_BPS as int) * (elapsed as int);
    if (principal as int) * (crate::INTEREST_RATE_BPS as int) > u128::MAX {
        0
    } else if product > u128::MAX {
        0
    } else {
        product / interest_divisor()
    }
}

/// Interest actually applied: `raw_interest`, saturated to zero where adding
/// it to the principal would overflow the accounting width.
pub open spec fn interest_amount(principal: u128, elapsed: u64) -> int {
    let raw = raw_interest(principal, elapsed);
    if principal + raw > u128::MAX {
        0
    } else {
        raw
    }
}

/// Interest an accrual at time `now` adds to this position: zero when there
/// is no debt or no time has passed.
pub open spec fn accrual_interest(p: Position, now: u64) -> int {
    if p.debt_principal == 0 {
        0
    } else if now <= p.last_accrual_time {
        0
    } else {
        interest_amount(p.debt_principal, (now - p.last_accrual_time) as u64)
    }
}

/// The accrual timestamp after an accrual at time `now`.  With no debt the
/// clock always refreshes; with debt it refreshes only when time moved
/// forward.
pub open spec fn accrued_last(p: Position, now: u64) -> u64 {
    if p.debt_principal == 0 {
        now
    } else if now <= p.last_accrual_time {
        p.last_accrual_time
    } else {
        now
    }
}

/// Debt with interest as of `now`: what the principal becomes once accrued.
pub open spec fn debt_now(p: Position, now: u64) -> int {
    if p.debt_principal == 0 {
        0
    } else {
        p.debt_principal + accrual_interest(p, now)
    }
}

/// Accrued interest is never negative and never pushes the principal past
/// the accounting width.
pub proof fn lemma_accrual_interest_bounds(p: Position, now: u64)
    ensures
        0 <= accrual_interest(p, now),
        p.debt_principal + accrual_interest(p, now) <= u128::MAX,
        0 <= debt_now(p, now) <= u128::MAX,
        p.debt_principal > 0 ==> debt_now(p, now) >= p.debt_principal,
{
    if p.debt_principal != 0 && now > p.last_accrual_time {
        let principal = p.debt_principal;
        let elapsed = (now - p.last_accrual_time) as u64;
        let product = (principal as int) * (crate::INTEREST_RATE_BPS as int) * (elapsed as int);
        assert(product >= 0) by (nonlinear_arith)
            requires
                product == (principal as int) * (crate::INTEREST_RATE_BPS as int) * (elapsed
                    as int),
                principal >= 0,
                elapsed >= 0,
                (crate::INTEREST_RATE_BPS as int) >= 0,
        ;
        assert(product / interest_divisor() >= 0) by (nonlinear_arith)
            requires
                product >= 0,
                interest_divisor() > 0,
        ;
    }
}

/// Comparing against a quotient decides whether a product overflows:
/// for `d > 0`, `x > m / d` holds exactly when `x * d > m`.
pub proof fn lemma_mul_div_bound(x: int, d: int, m: int)
    requires
        d > 0,
        m >= 0,
        x >= 0,
    ensures
        (x > m / d) <==> (x * d > m),
{
    vstd::arithmetic::div_mod::lemma_fundamental_div_mod(m, d);
    vstd::arithmetic::div_mod::lemma_mod_bound(m, d);
    if x > m / d {
        vstd::arithmetic::mul::lemma_mul_inequality(m / d + 1, x, d);
        assert((m / d + 1) * d == d * (m / d) + d) by (nonlinear_arith);
    } else {
        vstd::arithmetic::mul::lemma_mul_inequality(x, m / d, d);
        assert((m / d) * d == d * (m / d)) by (nonlinear_arith);
    }
}

/// Interest on `principal` after `elapsed` seconds.
pub fn interest_on(principal: u128, elapsed: u64) -> (r: u128)
    ensures
        r == interest_amount(principal, elapsed),
{
    let rate: u128 = crate::INTEREST_RATE_BPS as u128;
    if principal > u128::MAX / rate {
        proof {
            lemma_mul_div_bound(principal as int, rate as int, u128::MAX as int);
        }
        return 0;
    }
    proof {
        lemma_mul_div_bound(principal as int, rate as int, u128::MAX as int);
    }
    let a = principal * rate;
    let e = elapsed as u128;
    if e > 0 && a > u128::MAX / e {
        proof {
            lemma_mul_div_bound(a as int, e as int, u128::MAX as int);
        }
        return 0;
    }
    proof {
        if e > 0 {
            lemma_mul_div_bound(a as int, e as int, u128::MAX as int);
        }
    }
    let b = a * e;
    let raw = b / (crate::SECONDS_PER_YEAR as u128 * crate::BPS_DIVISOR as u128);
    if raw > u128::MAX - principal {
        return 0;
    }
    raw
}

/// Debt with interest as of `now`, without changing the position.
pub fn debt_with_interest(p: &Position, now: u64) -> (r: u128)
    ensures
        r == debt_now(*p, now),
{
    if p.debt_principal == 0 {
        return 0;
    }
    if now <= p.last_accrual_time {
        return p.debt_principal;
    }
    let interest = interest_on(p.debt_principal, now - p.last_accrual_time);
    p.debt_principal + interest
}

} // verus!
