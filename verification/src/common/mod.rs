//! Shared building blocks: the shared error code range, basis point math,
//! and the storage time to live settings every contract follows.

pub mod error_codes;

use vstd::prelude::*;

verus! {

/// Basis points, one hundredth of a percent. 10000 bps == 100 percent.
pub type Bps = u32;

/// Denominator for basis point math: `value * bps / BPS_DENOMINATOR`.
pub const BPS_DENOMINATOR: i128 = 10_000;

/// Approximate number of ledgers in a day at a five second close time.
pub const DAY_IN_LEDGERS: u32 = 17_280;

/// How far to extend instance storage when it is touched (about 30 days).
pub const INSTANCE_BUMP_AMOUNT: u32 = 518_400;

/// Extend instance storage once its remaining life drops below this (about 29 days).
pub const INSTANCE_LIFETIME_THRESHOLD: u32 = 501_120;

/// How far to extend a persistent entry when it is touched (about 90 days).
pub const PERSISTENT_BUMP_AMOUNT: u32 = 1_555_200;

/// Extend a persistent entry once its remaining life drops below this (about 89 days).
pub const PERSISTENT_LIFETIME_THRESHOLD: u32 = 1_537_920;

/// The exact value of `amount * bps / 10000`, the quotient truncated toward
/// zero as Rust's integer division does.
pub open spec fn bps_quotient(amount: int, bps: int) -> int {
    let p = amount * bps;
    if p >= 0 {
        p / 10_000
    } else {
        -((-p) / 10_000)
    }
}

/// What `apply_bps` gives: `None` when `amount * bps` leaves `i128`, else
/// the truncated quotient.
pub open spec fn bps_result(amount: i128, bps: Bps) -> Option<i128> {
    if amount * bps > i128::MAX || amount * bps < i128::MIN {
        None
    } else {
        Some(bps_quotient(amount as int, bps as int) as i128)
    }
}

/// Multiply an amount by a basis point fraction with checked arithmetic.
/// Returns `None` exactly when `amount * bps` leaves the range of `i128`, so
/// the caller can map it to its own `Overflow` error rather than panicking.
pub fn apply_bps(amount: i128, bps: Bps) -> (r: Option<i128>)
    ensures
        r is None <==> (amount * bps > i128::MAX || amount * bps < i128::MIN),
        r matches Some(v) ==> v == bps_quotient(amount as int, bps as int),
        r == bps_result(amount, bps),
{
    match amount.checked_mul(bps as i128) {
        Some(scaled) => scaled.checked_div(BPS_DENOMINATOR),
        None => None,
    }
}

/// Ten thousand basis points are the whole amount: applying them gives the
/// amount back whenever `amount * 10000` fits in `i128`.
pub proof fn law_full_bps_is_identity(amount: i128)
    requires
        i128::MIN <= amount * 10_000 <= i128::MAX,
    ensures
        bps_quotient(amount as int, 10_000) == amount,
{
    assert(amount * 10_000 >= 0 ==> (amount * 10_000) / 10_000 == amount) by (nonlinear_arith);
    assert(amount * 10_000 < 0 ==> (-(amount * 10_000)) / 10_000 == -amount) by (nonlinear_arith);
}

/// Zero basis points of any amount is zero.
pub proof fn law_zero_bps_is_zero(amount: i128)
    ensures
        bps_quotient(amount as int, 0) == 0,
{
}

} // verus!
