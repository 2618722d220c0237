//! Money arithmetic for bookings: splitting a sale price into the
//! platform fee and the writer payout.
//!
//! The fee percentage is fixed-point: an integer number of hundredths
//! of a percent (so `1000` means `10.00 %`). The fee is
//! `round_half_up(amount * pct / 100)`, computed purely on integers,
//! and the writer payout is the remainder, so the two always add back
//! up to the amount.

use vstd::arithmetic::div_mod::{lemma_div_is_ordered, lemma_div_multiples_vanish};
use vstd::prelude::*;

verus! {

/// Denominator of the fixed-point percentage: `pct` hundredths of a
/// percent out of `10000` make the whole.
pub const FEE_PCT_SCALE: u64 = 10000;

/// Half of the scale; adding it before dividing rounds half up.
pub const FEE_PCT_HALF: u64 = 5000;

/// The platform fee in cents for a sale of `amount` cents at a
/// fixed-point percentage of `pct` hundredths of a percent,
/// rounded half up.
pub open spec fn platform_fee_of(amount: int, pct: int) -> int {
    (amount * pct + 5000) / 10000
}

/// The writer keeps whatever the platform does not take.
pub open spec fn writer_payout_of(amount: int, pct: int) -> int {
    amount - platform_fee_of(amount, pct)
}

/// The fee never exceeds the amount as long as the percentage is at
/// most one hundred percent, and is never negative.
pub proof fn lemma_platform_fee_bounds(amount: int, pct: int)
    requires
        0 <= amount,
        0 <= pct <= 10000,
    ensures
        0 <= platform_fee_of(amount, pct) <= amount,
{
    assert(amount * pct >= 0) by (nonlinear_arith)
        requires
            amount >= 0,
            pct >= 0,
    ;
    lemma_div_is_ordered(0, amount * pct + 5000, 10000);
    assert(amount * pct <= amount * 10000) by (nonlinear_arith)
        requires
            amount >= 0,
            pct <= 10000,
    ;
    lemma_div_is_ordered(amount * pct + 5000, amount * 10000 + 5000, 10000);
    assert((amount * 10000 + 5000) / 10000 == amount) by {
        lemma_div_multiples_vanish(amount, 10000);
        assert(amount * 10000 + 5000 == 10000 * amount + 5000);
    }
}

/// Computes the platform fee in cents: `round_half_up(amount * pct / 100)`
/// on integers, with no floating point anywhere.
pub fn compute_platform_fee(amount_cents: i32, platform_fee_pct: u32) -> (fee: i32)
    requires
        0 <= amount_cents,
        platform_fee_pct <= 10000,
    ensures
        fee == platform_fee_of(amount_cents as int, platform_fee_pct as int),
        0 <= fee <= amount_cents,
{
    proof {
        lemma_platform_fee_bounds(amount_cents as int, platform_fee_pct as int);
    }
    let wide: u64 = (amount_cents as u64) * (platform_fee_pct as u64);
    let fee: u64 = (wide + FEE_PCT_HALF) / FEE_PCT_SCALE;
    fee as i32
}

/// Splits a sale into `(platform_fee_cents, writer_payout_cents)`.
/// The two parts always add back up to `amount_cents`.
pub fn split_amount(amount_cents: i32, platform_fee_pct: u32) -> (r: (i32, i32))
    requires
        0 <= amount_cents,
        platform_fee_pct <= 10000,
    ensures
        r.0 == platform_fee_of(amount_cents as int, platform_fee_pct as int),
        r.1 == writer_payout_of(amount_cents as int, platform_fee_pct as int),
        r.0 + r.1 == amount_cents,
        0 <= r.0,
        0 <= r.1,
{
    let fee = compute_platform_fee(amount_cents, platform_fee_pct);
    (fee, amount_cents - fee)
}

} // verus!
