//! The loan-to-value guard: how much debt a given collateral supports, and
//! how much collateral a given debt requires.  All divisions truncate down,
//! which only ever tightens the limit against the borrower.

use vstd::prelude::*;

use crate::units::motes_to_wad_spec;

verus! {

/// The largest debt, in wad, that `collateral` motes support: 80% of the
/// collateral's wad value.
pub open spec fn max_borrowable(collateral: u64) -> int {
    motes_to_wad_spec(collateral) * (crate::LTV_MAX_BPS as int) / (crate::BPS_DIVISOR as int)
}

/// The smallest collateral value, in wad, that supports `debt_wad` of debt.
pub open spec fn min_collateral_wad(debt_wad: u128) -> int {
    (debt_wad as int) * (crate::BPS_DIVISOR as int) / (crate::LTV_MAX_BPS as int)
}

/// The most collateral, in motes, that can leave a position without pushing
/// it past the loan-to-value ceiling: everything when there is no debt,
/// nothing when the collateral is already at or under the floor the debt
/// requires.
pub open spec fn withdrawable_amount(collateral: u64, debt_wad: u128) -> int {
    if debt_wad == 0 {
        collateral as int
    } else if motes_to_wad_spec(collateral) <= min_collateral_wad(debt_wad) {
        0
    } else {
        (motes_to_wad_spec(collateral) - min_collateral_wad(debt_wad)) / (
        crate::MOTES_TO_WAD_FACTOR as int)
    }
}

/// The loan-to-value ratio of a position, in basis points: debt over the
/// collateral's wad value, or zero with no collateral.
pub open spec fn ltv_bps(collateral: u64, debt_wad: int) -> int {
    if collateral == 0 {
        0
    } else {
        debt_wad * (crate::BPS_DIVISOR as int) / motes_to_wad_spec(collateral)
    }
}

/// The health factor of a position, in basis points: the borrowing ceiling
/// over the actual debt, and the largest representable value with no debt.
pub open spec fn health_factor_bps(collateral: u64, debt_wad: int) -> int {
    if debt_wad == 0 {
        u64::MAX as int
    } else {
        max_borrowable(collateral) * (crate::BPS_DIVISOR as int) / debt_wad
    }
}

/// The borrowing ceiling never exceeds the collateral's own wad value.
pub proof fn lemma_max_borrowable_le_wad(collateral: u64)
    ensures
        0 <= max_borrowable(collateral) <= motes_to_wad_spec(collateral),
{
    let w = motes_to_wad_spec(collateral);
    let ltv = crate::LTV_MAX_BPS as int;
    let bps = crate::BPS_DIVISOR as int;
    assert(w >= 0) by (nonlinear_arith)
        requires
            w == collateral * (crate::MOTES_TO_WAD_FACTOR as int),
            collateral >= 0,
    ;
    assert(w * ltv <= w * bps) by (nonlinear_arith)
        requires
            w >= 0,
            0 <= ltv <= bps,
    ;
    vstd::arithmetic::div_mod::lemma_div_is_ordered(w * ltv, w * bps, bps);
    assert(w * bps / bps == w) by (nonlinear_arith)
        requires
            bps == 10_000,
    ;
    assert(w * ltv / bps >= 0) by (nonlinear_arith)
        requires
            w >= 0,
            ltv >= 0,
            bps > 0,
    ;
}

/// A debt too large for the widened intermediate needs more collateral than
/// any position can hold.
pub proof fn lemma_min_collateral_overflow(debt_wad: u128)
    requires
        (debt_wad as int) * (crate::BPS_DIVISOR as int) > u128::MAX,
    ensures
        min_collateral_wad(debt_wad) > (u64::MAX as int) * (crate::MOTES_TO_WAD_FACTOR as int),
{
    let d = debt_wad as int;
    let ltv = crate::LTV_MAX_BPS as int;
    let bps = crate::BPS_DIVISOR as int;
    crate::interest::lemma_mul_div_bound(d, bps, u128::MAX as int);
    assert(d * bps / ltv >= d * ltv / ltv) by {
        assert(d * ltv <= d * bps) by (nonlinear_arith)
            requires
                d >= 0,
                0 <= ltv <= bps,
        ;
        vstd::arithmetic::div_mod::lemma_div_is_ordered(d * ltv, d * bps, ltv);
    }
    assert(d * ltv / ltv == d) by (nonlinear_arith)
        requires
            ltv == 8_000,
    ;
}

/// What a position can withdraw never exceeds what it holds.
pub proof fn lemma_withdrawable_le_collateral(collateral: u64, debt_wad: u128)
    ensures
        0 <= withdrawable_amount(collateral, debt_wad) <= collateral,
{
    let w = motes_to_wad_spec(collateral);
    let f = crate::MOTES_TO_WAD_FACTOR as int;
    if debt_wad != 0 && w > min_collateral_wad(debt_wad) {
        let diff = w - min_collateral_wad(debt_wad);
        assert(min_collateral_wad(debt_wad) >= 0) by (nonlinear_arith)
            requires
                min_collateral_wad(debt_wad) == (debt_wad as int) * (crate::BPS_DIVISOR as int) / (
                crate::LTV_MAX_BPS as int),
                debt_wad >= 0,
        ;
        vstd::arithmetic::div_mod::lemma_div_is_ordered(diff, w, f);
        assert(w / f == collateral) by (nonlinear_arith)
            requires
                w == collateral * f,
                f == 1_000_000_000,
        ;
        assert(diff / f >= 0) by (nonlinear_arith)
            requires
                diff >= 0,
                f > 0,
        ;
    }
}

/// Withdrawing the maximum leaves a position that still supports its debt:
/// every division on the way truncates down, and truncating the withdrawal
/// to whole motes only leaves more collateral behind.
pub proof fn lemma_withdraw_max_keeps_ltv(collateral: u64, debt_wad: u128)
    requires
        debt_wad > 0,
        motes_to_wad_spec(collateral) > min_collateral_wad(debt_wad),
    ensures
        debt_wad as int <= max_borrowable(
            (collateral - withdrawable_amount(collateral, debt_wad)) as u64,
        ),
{
    let f = crate::MOTES_TO_WAD_FACTOR as int;
    let bps = crate::BPS_DIVISOR as int;
    let ltv = crate::LTV_MAX_BPS as int;
    let c = collateral as int;
    let d = debt_wad as int;
    let w = c * f;
    let m = min_collateral_wad(debt_wad);
    let amount = withdrawable_amount(collateral, debt_wad);
    lemma_withdrawable_le_collateral(collateral, debt_wad);
    let rem = c - amount;
    let remwad = rem * f;
    // w - m splits as f * amount + s with 0 <= s < f.
    vstd::arithmetic::div_mod::lemma_fundamental_div_mod(w - m, f);
    vstd::arithmetic::div_mod::lemma_mod_bound(w - m, f);
    let s = (w - m) % f;
    assert(w - m == f * amount + s);
    assert(remwad == w - amount * f) by (nonlinear_arith)
        requires
            remwad == (c - amount) * f,
            w == c * f,
    ;
    assert(amount * f == f * amount) by (nonlinear_arith);
    assert(remwad == m + s);
    // d * bps splits as ltv * m + r with 0 <= r < ltv.
    vstd::arithmetic::div_mod::lemma_fundamental_div_mod(d * bps, ltv);
    vstd::arithmetic::div_mod::lemma_mod_bound(d * bps, ltv);
    let r = (d * bps) % ltv;
    assert(d * bps == ltv * m + r);
    // In either case the remaining wad value supports the debt exactly:
    // ltv * remwad >= bps * d.
    assert(ltv * remwad == ltv * m + ltv * s) by (nonlinear_arith)
        requires
            remwad == m + s,
    ;
    if s == 0 {
        // The withdrawal divided evenly, so the remainder of the
        // loan-to-value division must itself be zero: it is a multiple of
        // the basis-point divisor below the divisor.
        assert(m == f * rem);
        let k = d - 800_000_000 * rem;
        assert(ltv * (f * rem) == bps * (800_000_000 * rem)) by (nonlinear_arith)
            requires
                ltv == 8_000,
                bps == 10_000,
                f == 1_000_000_000,
        ;
        assert(d * bps == bps * d) by (nonlinear_arith);
        assert(bps * k == bps * d - bps * (800_000_000 * rem)) by (nonlinear_arith)
            requires
                k == d - 800_000_000 * rem,
        ;
        assert(r == bps * k);
        if k >= 1 {
            assert(bps * k >= bps) by (nonlinear_arith)
                requires
                    k >= 1,
                    bps > 0,
            ;
            assert(false);
        }
        if k <= -1 {
            assert(bps * k <= -bps) by (nonlinear_arith)
                requires
                    k <= -1,
                    bps > 0,
            ;
            assert(false);
        }
        assert(r == 0);
        assert(ltv * remwad >= d * bps);
    } else {
        assert(ltv * s >= ltv) by (nonlinear_arith)
            requires
                s >= 1,
                ltv > 0,
        ;
        assert(ltv * remwad >= d * bps);
    }
    // Divide both sides by the basis-point divisor.
    assert(remwad * ltv == ltv * remwad) by (nonlinear_arith);
    assert(d * bps == bps * d) by (nonlinear_arith);
    vstd::arithmetic::div_mod::lemma_div_is_ordered(bps * d, remwad * ltv, bps);
    vstd::arithmetic::div_mod::lemma_div_multiples_vanish(d, bps);
    assert(motes_to_wad_spec(rem as u64) == remwad);
}

/// The borrowing ceiling for `collateral` motes, in wad.
pub fn max_borrowable_wad(collateral: u64) -> (r: u128)
    ensures
        r == max_borrowable(collateral),
{
    let wad = crate::units::motes_to_wad(collateral);
    proof {
        vstd::arithmetic::mul::lemma_mul_inequality(
            wad as int,
            (u64::MAX as int) * (crate::MOTES_TO_WAD_FACTOR as int),
            crate::LTV_MAX_BPS as int,
        );
        lemma_max_borrowable_le_wad(collateral);
    }
    wad * (crate::LTV_MAX_BPS as u128) / (crate::BPS_DIVISOR as u128)
}

/// Whether `debt_wad` of debt exceeds what `collateral` motes support.
pub fn exceeds_ltv(debt_wad: u128, collateral: u64) -> (r: bool)
    ensures
        r == ((debt_wad as int) > max_borrowable(collateral)),
{
    let ceiling = max_borrowable_wad(collateral);
    debt_wad > ceiling
}

/// The most collateral, in motes, the position can withdraw while staying
/// at or under the loan-to-value ceiling; zero when nothing can leave.
pub fn withdrawable(collateral: u64, debt_wad: u128) -> (r: u64)
    ensures
        r == withdrawable_amount(collateral, debt_wad),
{
    if debt_wad == 0 {
        return collateral;
    }
    let bps = crate::BPS_DIVISOR as u128;
    let cur_wad = crate::units::motes_to_wad(collateral);
    if debt_wad > u128::MAX / bps {
        proof {
            crate::interest::lemma_mul_div_bound(debt_wad as int, bps as int, u128::MAX as int);
            lemma_min_collateral_overflow(debt_wad);
        }
        return 0;
    }
    proof {
        crate::interest::lemma_mul_div_bound(debt_wad as int, bps as int, u128::MAX as int);
    }
    let min_wad = debt_wad * bps / (crate::LTV_MAX_BPS as u128);
    if cur_wad <= min_wad {
        return 0;
    }
    proof {
        lemma_withdrawable_le_collateral(collateral, debt_wad);
    }
    crate::units::wad_to_motes(cur_wad - min_wad)
}

} // verus!
