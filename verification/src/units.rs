//! Conversions between the native asset's integer scale (9 decimal places,
//! "motes") and the debt token's fixed-point scale (18 decimal places,
//! "wad").  One mote corresponds to `MOTES_TO_WAD_FACTOR` wad.

use vstd::prelude::*;

verus! {

/// Value of `motes` on the wad scale.
pub open spec fn motes_to_wad_spec(motes: u64) -> int {
    motes * crate::MOTES_TO_WAD_FACTOR
}

/// Value of `wad` on the mote scale, truncated toward zero.  Truncation is
/// deliberate and conservative: it never grants more native-scale value
/// than the fixed-point balance justifies.
pub open spec fn wad_to_motes_spec(wad: u128) -> int {
    wad as int / (crate::MOTES_TO_WAD_FACTOR as int)
}

/// Convert motes (9 decimals) to wad (18 decimals).
pub fn motes_to_wad(motes: u64) -> (r: u128)
    ensures
        r == motes_to_wad_spec(motes),
{
    proof {
        vstd::arithmetic::mul::lemma_mul_inequality(
            motes as int,
            u64::MAX as int,
            crate::MOTES_TO_WAD_FACTOR as int,
        );
    }
    motes as u128 * crate::MOTES_TO_WAD_FACTOR as u128
}

/// Convert wad (18 decimals) to motes (9 decimals), rounding down.
pub fn wad_to_motes(wad: u128) -> (r: u64)
    requires
        wad_to_motes_spec(wad) <= u64::MAX,
    ensures
        r == wad_to_motes_spec(wad),
{
    (wad / crate::MOTES_TO_WAD_FACTOR as u128) as u64
}

/// Converting motes to wad and back gives the same amount of motes.
pub proof fn lemma_wad_round_trip(motes: u64)
    ensures
        wad_to_motes_spec(motes_to_wad_spec(motes) as u128) == motes,
{
    let f = crate::MOTES_TO_WAD_FACTOR as int;
    assert(motes * f / f == motes) by (nonlinear_arith)
        requires
            f == 1_000_000_000,
    ;
}

} // verus!
