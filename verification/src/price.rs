//! Conversions between human-readable decimal prices and the Q96
//! square-root-price fixed-point form used by concentrated-liquidity pools.
//!
//! A Q96 sqrt-price `s` encodes the real number `s / 2^96`, whose square is
//! the pool's raw token1/token0 ratio. For token decimal scales `d0`, `d1`
//! and a human price `P` (quote per base, in wad form `m = P * 10^18`), the
//! raw ratio is `10^(d1 - d0) / P`, so
//! `s = floor(sqrt(10^(d1 - d0 + 18) * 2^192 / m))`.
//! All arithmetic here is exact integer arithmetic; each function's result
//! is characterised as an exact floor.

use vstd::prelude::*;
use crate::errors::CoreError;
use crate::models::WAD;
use crate::wide::{
    b128, div_384_256, mul_128, sqrt_384, w256, w256_of, w384, w384_le, widen_384, Wide256,
    Wide384,
};
use vstd::arithmetic::div_mod::lemma_fundamental_div_mod;

verus! {

/// 2^96, the Q96 fixed-point scale.
pub open spec fn q96() -> int {
    0x1000000000000000000000000int
}

/// 2^192, the square of the Q96 scale.
pub open spec fn q192() -> int {
    0x1000000000000000000000000000000000000000000000000int
}

/// 10^k.
pub open spec fn pow10(k: nat) -> nat
    decreases k,
{
    if k == 0 {
        1
    } else {
        10 * pow10((k - 1) as nat)
    }
}

/// Largest power of ten that fits in a `u128`.
pub proof fn lemma_pow10_38()
    ensures
        pow10(38) == 100000000000000000000000000000000000000int,
{
    reveal_with_fuel(pow10, 40);
}

/// Powers of ten do not decrease.
pub proof fn lemma_pow10_mono(i: nat, j: nat)
    requires
        i <= j,
    ensures
        pow10(i) <= pow10(j),
    decreases j,
{
    if i < j {
        lemma_pow10_mono(i, (j - 1) as nat);
        assert(pow10(j) == 10 * pow10((j - 1) as nat));
    }
}

/// `10^k` as a `u128`, for `k` up to 38.
pub fn pow10_u128(k: u32) -> (r: u128)
    requires
        k <= 38,
    ensures
        r == pow10(k as nat),
        r >= 1,
{
    let mut r: u128 = 1;
    let mut i: u32 = 0;
    while i < k
        invariant
            i <= k <= 38,
            r == pow10(i as nat),
        decreases k - i,
    {
        proof {
            lemma_pow10_mono((i + 1) as nat, 38);
            lemma_pow10_38();
            assert(pow10((i + 1) as nat) == 10 * pow10(i as nat));
        }
        r = r * 10;
        i = i + 1;
    }
    proof {
        lemma_pow10_mono(0, k as nat);
    }
    r
}

/// `2^192 * 10^k` as an exact three-limb number.
fn q192_times_pow10(k: u32) -> (r: Wide384)
    requires
        k <= 38,
    ensures
        w384(r) == q192() * pow10(k as nat),
{
    let t: u128 = pow10_u128(k);
    let w2: u128 = t / 0x10000000000000000;
    let w1: u128 = (t % 0x10000000000000000) * 0x10000000000000000;
    proof {
        lemma_fundamental_div_mod(t as int, crate::wide::b64());
        assert(w2 * b128() * b128() + w1 * b128() == q192() * t) by (nonlinear_arith)
            requires
                t == w2 * crate::wide::b64() + (t as int % crate::wide::b64()),
                w1 == (t as int % crate::wide::b64()) * crate::wide::b64(),
                crate::wide::b64() == 0x10000000000000000,
                b128() == 0x100000000000000000000000000000000int,
                q192() == 0x1000000000000000000000000000000000000000000000000int,
        ;
    }
    Wide384 { w2, w1, w0: 0 }
}

/// Whether `s` is the floor of the exact square root of
/// `10^k * 2^192 / m`, i.e. the Q96 sqrt-price for wad price `m` at
/// decimal-difference exponent `k`.
pub open spec fn is_sqrt_price(s: int, k: nat, m: int) -> bool {
    &&& s * s * m <= q192() * pow10(k)
    &&& q192() * pow10(k) < (s + 1) * (s + 1) * m
}

/// The decimal-difference exponent for a token pair, shifted by the wad
/// scale: `d1 - d0 + 18`.
pub open spec fn wad_exp(token0_decimals: u8, token1_decimals: u8) -> int {
    token1_decimals - token0_decimals + 18
}

/// The Q96 sqrt-price for wad price `m` at exponent `k`: the unique value
/// satisfying `is_sqrt_price`.
pub open spec fn sqrt_price_of(k: nat, m: int) -> int {
    choose|s: int| 0 <= s && is_sqrt_price(s, k, m)
}

/// At most one non-negative integer brackets the root, so any witness is
/// the `sqrt_price_of` value.
pub proof fn lemma_sqrt_price_unique(s: int, k: nat, m: int)
    requires
        m > 0,
        0 <= s,
        is_sqrt_price(s, k, m),
    ensures
        s == sqrt_price_of(k, m),
{
    let t = sqrt_price_of(k, m);
    assert(0 <= t && is_sqrt_price(t, k, m)) by {
        assert(0 <= s && is_sqrt_price(s, k, m));
    }
    if s < t {
        assert((s + 1) * (s + 1) * m <= t * t * m) by (nonlinear_arith)
            requires
                0 <= s,
                s + 1 <= t,
                m > 0,
        ;
        assert(false);
    }
    if t < s {
        assert((t + 1) * (t + 1) * m <= s * s * m) by (nonlinear_arith)
            requires
                0 <= t,
                t + 1 <= s,
                m > 0,
        ;
        assert(false);
    }
}

/// Convert a wad human price (quote per base) to the pool's Q96 sqrt-price,
/// rounding the square root down.
///
/// Fails with `InvalidInput` on a zero price or a token-decimal difference
/// outside the supported range, and with `Overflow` when the sqrt-price
/// would not fit in 128 bits.
pub fn calculate_sqrt_price_with_precision_per_eth(
    price_wad: u128,
    token0_decimals: u8,
    token1_decimals: u8,
) -> (r: Result<u128, CoreError>)
    ensures
        ({
            let k = wad_exp(token0_decimals, token1_decimals);
            match r {
                Ok(s) => price_wad > 0 && 0 <= k <= 38 && is_sqrt_price(
                    s as int,
                    k as nat,
                    price_wad as int,
                ),
                Err(CoreError::InvalidInput) => price_wad == 0 || !(0 <= k <= 38),
                Err(CoreError::Overflow) => price_wad > 0 && 0 <= k <= 38 && q192() * pow10(
                    k as nat,
                ) >= b128() * b128() * price_wad,
            }
        }),
{
    if price_wad == 0 {
        return Err(CoreError::InvalidInput);
    }
    let k_i: i32 = token1_decimals as i32 - token0_decimals as i32 + 18;
    if k_i < 0 || k_i > 38 {
        return Err(CoreError::InvalidInput);
    }
    let n: Wide384 = q192_times_pow10(k_i as u32);
    match sqrt_384(n, price_wad) {
        Some(s) => Ok(s),
        None => Err(CoreError::Overflow),
    }
}

/// Convert a Q96 sqrt-price back to a wad human price (quote per base),
/// rounding down: `floor(10^k * 2^192 / s^2)` with `k = d1 - d0 + 18`.
///
/// A zero sqrt-price yields a zero price (the "no quote yet" display case);
/// an unsupported decimal difference fails with `InvalidInput`; a price of
/// 2^128 wad units or more fails with `Overflow`.
pub fn calculate_human_price_from_sqrt_x96(
    sqrt_price_x96: u128,
    token0_decimals: u8,
    token1_decimals: u8,
) -> (r: Result<u128, CoreError>)
    ensures
        ({
            let k = wad_exp(token0_decimals, token1_decimals);
            match r {
                Ok(p) => (0 <= k <= 38) && if sqrt_price_x96 == 0 {
                    p == 0
                } else {
                    p == q192() * pow10(k as nat) / (sqrt_price_x96 * sqrt_price_x96)
                },
                Err(CoreError::InvalidInput) => !(0 <= k <= 38),
                Err(CoreError::Overflow) => 0 <= k <= 38 && sqrt_price_x96 > 0 && q192() * pow10(
                    k as nat,
                ) >= b128() * (sqrt_price_x96 * sqrt_price_x96),
            }
        }),
{
    let k_i: i32 = token1_decimals as i32 - token0_decimals as i32 + 18;
    if k_i < 0 || k_i > 38 {
        return Err(CoreError::InvalidInput);
    }
    if sqrt_price_x96 == 0 {
        return Ok(0);
    }
    let sq: Wide256 = mul_128(sqrt_price_x96, sqrt_price_x96);
    let n: Wide384 = q192_times_pow10(k_i as u32);
    proof {
        assert(w256(sq) > 0) by (nonlinear_arith)
            requires
                w256(sq) == sqrt_price_x96 * sqrt_price_x96,
                sqrt_price_x96 > 0,
        ;
    }
    match div_384_256(n, sq) {
        Some(q) => Ok(q),
        None => Err(CoreError::Overflow),
    }
}

/// The pool's current quote-per-base price in wad units, for the standard
/// 6/18-decimal pair, rounding down; zero when the sqrt-price is zero or
/// the price does not fit the wad range (display fallback, never an error).
pub fn price_usdc_per_eth(sqrt_price_x96: u128) -> (p: u128)
    ensures
        sqrt_price_x96 == 0 ==> p == 0,
        sqrt_price_x96 > 0 ==> {
            let exact = q192() * pow10(30) / (sqrt_price_x96 * sqrt_price_x96);
            if exact < b128() {
                p == exact
            } else {
                p == 0
            }
        },
{
    let r = calculate_human_price_from_sqrt_x96(sqrt_price_x96, 6, 18);
    proof {
        if sqrt_price_x96 > 0 && r is Err {
            let s2 = sqrt_price_x96 as int * sqrt_price_x96 as int;
            assert(s2 > 0) by (nonlinear_arith)
                requires
                    s2 == sqrt_price_x96 as int * sqrt_price_x96 as int,
                    sqrt_price_x96 > 0,
            ;
            vstd::arithmetic::div_mod::lemma_div_is_ordered(
                b128() * s2,
                q192() * pow10(30),
                s2,
            );
            vstd::arithmetic::div_mod::lemma_div_by_multiple(b128(), s2);
        }
    }
    match r {
        Ok(p) => p,
        Err(_) => 0,
    }
}

} // verus!
