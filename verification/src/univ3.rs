//! Exact pool-curve token deltas, computed by the `uniswap_v3_math` crate
//! and characterised here as integer floor/ceil formulas.
//!
//! For a constant-liquidity move between sqrt-prices `a <= b` with
//! liquidity `l` (all Q96 / raw integer values):
//!
//! * token0 delta: `l * 2^96 * (b - a) / (b * a)`, divided first by `b`
//!   and then by `a`, each step rounded the same way;
//! * token1 delta: `l * (b - a) / 2^96`.
//!
//! Rounding is chosen by the caller: up for amounts the trader must pay
//! in, down for amounts the trader receives.

use vstd::prelude::*;
use crate::price::q96;
use crate::wide::b128;

verus! {

/// Ceiling division for non-negative dividends and positive divisors.
pub open spec fn ceil_div(x: int, d: int) -> int {
    (x + d - 1) / d
}

/// Token0 amount for a move between sqrt-prices `a <= b` at liquidity `l`,
/// both division steps rounded up (the trader pays this).
pub open spec fn amt0_up(a: int, b: int, l: int) -> int {
    ceil_div(ceil_div(l * q96() * (b - a), b), a)
}

/// Token0 amount for a move between sqrt-prices `a <= b` at liquidity `l`,
/// both division steps rounded down (the trader receives this).
pub open spec fn amt0_down(a: int, b: int, l: int) -> int {
    l * q96() * (b - a) / b / a
}

/// Token1 amount for a move between sqrt-prices `a <= b` at liquidity `l`,
/// rounded up (the trader pays this).
pub open spec fn amt1_up(a: int, b: int, l: int) -> int {
    ceil_div(l * (b - a), q96())
}

/// Token1 amount for a move between sqrt-prices `a <= b` at liquidity `l`,
/// rounded down (the trader receives this).
pub open spec fn amt1_down(a: int, b: int, l: int) -> int {
    l * (b - a) / q96()
}

/// Relies on `uniswap_v3_math::sqrt_price_math::_get_amount_0_delta`: for
/// sorted positive sqrt-prices it returns
/// `l * 2^96 * (b - a) / b / a`, each division rounded up or down per the
/// flag, failing only on a zero lower sqrt-price (excluded here by the
/// precondition, so `None` means only that the amount needs 128 bits or
/// more). With both sqrt-prices below 2^128 and `l` a `u128`, the crate's
/// internal 512-bit `mul_div` cannot fail, since its intermediate high
/// product is below `l * (b - a) / 2^160 < b`.
#[verifier::external_body]
pub(crate) fn amount0_delta(sqrt_a: u128, sqrt_b: u128, liquidity: u128, round_up: bool) -> (r:
    Option<u128>)
    requires
        0 < sqrt_a <= sqrt_b,
    ensures
        ({
            let v = if round_up {
                amt0_up(sqrt_a as int, sqrt_b as int, liquidity as int)
            } else {
                amt0_down(sqrt_a as int, sqrt_b as int, liquidity as int)
            };
            match r {
                Some(x) => x == v,
                None => v >= b128(),
            }
        }),
{
    let res = uniswap_v3_math::sqrt_price_math::_get_amount_0_delta(
        alloy_primitives::U256::from(sqrt_a),
        alloy_primitives::U256::from(sqrt_b),
        liquidity,
        round_up,
    );
    match res {
        Ok(v) => u128::try_from(v).ok(),
        Err(_) => None,
    }
}

/// Relies on `uniswap_v3_math::sqrt_price_math::_get_amount_1_delta`: for
/// sorted sqrt-prices it returns `l * (b - a) / 2^96`, rounded up or down
/// per the flag, and cannot fail for 128-bit inputs (its `mul_div`
/// denominator `2^96` always exceeds the 512-bit product's high half, which
/// is zero here), so `None` means only that the amount needs 128 bits or
/// more.
#[verifier::external_body]
pub(crate) fn amount1_delta(sqrt_a: u128, sqrt_b: u128, liquidity: u128, round_up: bool) -> (r:
    Option<u128>)
    requires
        sqrt_a <= sqrt_b,
    ensures
        ({
            let v = if round_up {
                amt1_up(sqrt_a as int, sqrt_b as int, liquidity as int)
            } else {
                amt1_down(sqrt_a as int, sqrt_b as int, liquidity as int)
            };
            match r {
                Some(x) => x == v,
                None => v >= b128(),
            }
        }),
{
    let res = uniswap_v3_math::sqrt_price_math::_get_amount_1_delta(
        alloy_primitives::U256::from(sqrt_a),
        alloy_primitives::U256::from(sqrt_b),
        liquidity,
        round_up,
    );
    match res {
        Ok(v) => u128::try_from(v).ok(),
        Err(_) => None,
    }
}

/// The Q96 sqrt-price at a tick index: `sqrt(1.0001^tick) * 2^96`, a
/// deterministic function of the tick alone, computed by the tick-math
/// routine of the pool-math crate.
pub uninterp spec fn tick_sqrt_ratio(tick: int) -> nat;

/// Relies on `uniswap_v3_math::tick_math::get_sqrt_ratio_at_tick`: a
/// deterministic function of the tick index, failing exactly when the
/// tick's magnitude exceeds 887272 (so `None` otherwise means the ratio
/// needs 128 bits or more). The routine negates a negative tick before
/// range-checking it, which does not return on `i32::MIN` (the negation
/// has no `i32` value), so that one input is excluded here; callers
/// range-check the tick first.
#[verifier::external_body]
pub(crate) fn sqrt_ratio_at_tick(tick: i32) -> (r: Option<u128>)
    requires
        tick > i32::MIN,
    ensures
        match r {
            Some(v) => -887272 <= tick <= 887272 && v == tick_sqrt_ratio(tick as int),
            None => tick < -887272 || tick > 887272 || tick_sqrt_ratio(tick as int) >= b128(),
        },
{
    match uniswap_v3_math::tick_math::get_sqrt_ratio_at_tick(tick) {
        Ok(v) => u128::try_from(v).ok(),
        Err(_) => None,
    }
}

} // verus!
