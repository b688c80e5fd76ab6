//! The library's cross-cutting guarantees, stated and proved once: target
//! conversion is antitone in the price, infeasible directions yield the
//! zero result and feasible ones never do, a higher LP fee strictly raises
//! the required input while leaving the output untouched, capping pins the
//! input to the cap and scales the output proportionally, two-segment
//! traversals sum the per-segment amounts, and gas shifts profit linearly
//! so a large enough gas cost removes any opportunity.

use vstd::prelude::*;
use crate::calc::{
    fee_up, leg_end, leg_raw_in, leg_raw_out, raw_in, raw_out, seg_fold, swap_feasible, swap_fits,
    swap_in_wad, swap_out_wad, wad_of, dec_in, dec_out,
};
use crate::evaluator::{a_reports, b_reports, pnl_a, pnl_b, swap_result_of, ArbitrageConfig};
use crate::models::{BookDepth, SwapDirection, SwapResult};
use crate::price::is_sqrt_price;
use crate::state::{PoolState, PriceSegment};
use crate::univ3::ceil_div;
use crate::wide::b128;

verus! {

/// A higher human price maps to a lower (or equal) Q96 sqrt-price: the
/// raw ratio is the reciprocal of the price, so the conversion is
/// antitone. Token0-in swaps (which push the sqrt-price down) are
/// therefore feasible exactly for targets above the pool's own price.
pub proof fn lemma_sqrt_target_antitone(s1: int, s2: int, k: nat, m1: int, m2: int)
    requires
        0 < m1 <= m2,
        0 <= s1,
        0 <= s2,
        is_sqrt_price(s1, k, m1),
        is_sqrt_price(s2, k, m2),
    ensures
        s2 <= s1,
{
    if s1 < s2 {
        assert((s1 + 1) * (s1 + 1) * m1 <= s2 * s2 * m2) by (nonlinear_arith)
            requires
                0 <= s1,
                s1 + 1 <= s2,
                0 < m1 <= m2,
        ;
        assert(false);
    }
}

/// Round trip, lower bound: converting a wad price to its Q96 sqrt-price
/// and back never under-reports the price — both conversions round down,
/// and the two floors work against the square root, which sits in the
/// denominator of the price formula. (The matching upper bound is a
/// relative-tolerance statement exercised by the test suite.)
pub proof fn lemma_round_trip_never_below(s: int, k: nat, m: int)
    requires
        m > 0,
        s > 0,
        is_sqrt_price(s, k, m),
    ensures
        crate::price::q192() * crate::price::pow10(k) / (s * s) >= m,
{
    let n = crate::price::q192() * crate::price::pow10(k);
    assert(s * s > 0) by (nonlinear_arith)
        requires
            s > 0,
    ;
    vstd::arithmetic::div_mod::lemma_div_is_ordered(s * s * m, n, s * s);
    assert(s * s * m == m * (s * s)) by (nonlinear_arith);
    vstd::arithmetic::div_mod::lemma_div_by_multiple(m, s * s);
}

/// Round trip, upper bound: the recovered price overshoots the original by
/// less than three parts in `s` — for any realistic sqrt-price (far above
/// 3·10^9) that is well inside a 10^-9 relative tolerance.
pub proof fn lemma_round_trip_error_bound(s: int, k: nat, m: int)
    requires
        m > 0,
        s > 0,
        is_sqrt_price(s, k, m),
    ensures
        (crate::price::q192() * crate::price::pow10(k) / (s * s) - m) * s < 3 * m,
{
    let n = crate::price::q192() * crate::price::pow10(k);
    let back = n / (s * s);
    assert(s * s > 0) by (nonlinear_arith)
        requires
            s > 0,
    ;
    vstd::arithmetic::div_mod::lemma_fundamental_div_mod(n, s * s);
    vstd::arithmetic::div_mod::lemma_mod_bound(n, s * s);
    // back * s^2 <= n < (s+1)^2 * m <= s^2 * m + 3*s*m, so the excess over
    // m shrinks like 3/s.
    assert((s + 1) * (s + 1) * m <= s * s * m + 3 * s * m) by (nonlinear_arith)
        requires
            s >= 1,
            m > 0,
    ;
    assert((back - m) * s < 3 * m) by (nonlinear_arith)
        requires
            back * (s * s) <= n,
            n < s * s * m + 3 * s * m,
            s > 0,
            m > 0,
    ;
}

/// An infeasible direction yields the zero result: no amounts, no flags.
pub proof fn lemma_infeasible_is_zero(
    pool: PoolState,
    s1: int,
    direction: SwapDirection,
    fee_bps: u32,
    max_wad: u128,
)
    requires
        !swap_feasible(pool, s1, direction),
    ensures
        swap_result_of(pool, s1, direction, fee_bps, max_wad) == SwapResult::zero_spec(),
{
}

/// A feasible move that fits always takes a positive input: the rounded-up
/// curve delta of a non-empty move at positive liquidity is at least one
/// raw unit, and neither the fee division nor the wad scaling can lose it.
/// Combined with `lemma_infeasible_is_zero`, a solve succeeds (reports a
/// positive fee-inclusive input, or is explicitly capped) exactly on the
/// feasible side of the current price.
pub proof fn lemma_feasible_is_positive(
    pool: PoolState,
    s1: int,
    direction: SwapDirection,
    fee_bps: u32,
)
    requires
        pool.liquidity > 0,
        pool.sqrt_price_x96 > 0,
        s1 > 0,
        fee_bps < 10000,
        pool.token0_decimals <= 18,
        pool.token1_decimals <= 18,
        swap_feasible(pool, s1, direction),
    ensures
        raw_in(pool, s1, direction) >= 1,
        swap_in_wad(pool, s1, direction, fee_bps) >= 1,
{
    let s0 = pool.sqrt_price_x96 as int;
    let l = pool.liquidity as int;
    let lo = if s1 < s0 { s1 } else { s0 };
    let hi = if s1 < s0 { s0 } else { s1 };
    assert(l * crate::price::q96() * (hi - lo) >= 1 && l * (hi - lo) >= 1) by (nonlinear_arith)
        requires
            l >= 1,
            hi - lo >= 1,
            crate::price::q96() >= 1,
    ;
    lemma_ceil_div_at_least_one(l * crate::price::q96() * (hi - lo), hi);
    match direction {
        SwapDirection::Token0ToToken1 => {
            lemma_ceil_div_at_least_one(ceil_div(l * crate::price::q96() * (hi - lo), hi), lo);
        },
        SwapDirection::Token1ToToken0 => {
            lemma_ceil_div_at_least_one(l * (hi - lo), crate::price::q96());
        },
    }
    let r_in = raw_in(pool, s1, direction);
    assert(r_in * 10000 >= 1) by (nonlinear_arith)
        requires
            r_in >= 1,
    ;
    lemma_ceil_div_at_least_one(r_in * 10000, 10000 - fee_bps as int);
    let f = fee_up(r_in, fee_bps as int);
    crate::price::lemma_pow10_mono(0, (18 - dec_in(pool, direction)) as nat);
    assert(f * crate::price::pow10((18 - dec_in(pool, direction)) as nat) >= 1)
        by (nonlinear_arith)
        requires
            f >= 1,
            crate::price::pow10((18 - dec_in(pool, direction)) as nat) >= 1,
    ;
}

/// A feasible move also receives a positive output once its sqrt-price
/// span covers one output quantum — `l·Δs >= 2^96` for a token1 output,
/// `l·2^96·Δs >= s0·s1` for a token0 output. (Below the quantum the
/// rounded-down output can floor to zero even though the rounded-up input
/// is positive; that is the conservative rounding, not a lost fill.)
pub proof fn lemma_feasible_output_positive(pool: PoolState, s1: int, direction: SwapDirection)
    requires
        pool.liquidity > 0,
        pool.sqrt_price_x96 > 0,
        s1 > 0,
        pool.token0_decimals <= 18,
        pool.token1_decimals <= 18,
        swap_feasible(pool, s1, direction),
        match direction {
            SwapDirection::Token0ToToken1 => pool.liquidity * (pool.sqrt_price_x96 - s1)
                >= crate::price::q96(),
            SwapDirection::Token1ToToken0 => pool.liquidity * crate::price::q96() * (s1
                - pool.sqrt_price_x96) >= pool.sqrt_price_x96 * s1,
        },
    ensures
        raw_out(pool, s1, direction) >= 1,
        swap_out_wad(pool, s1, direction) >= 1,
{
    let s0 = pool.sqrt_price_x96 as int;
    let l = pool.liquidity as int;
    match direction {
        SwapDirection::Token0ToToken1 => {
            let x = l * (s0 - s1);
            vstd::arithmetic::div_mod::lemma_div_is_ordered(
                crate::price::q96(),
                x,
                crate::price::q96(),
            );
            vstd::arithmetic::div_mod::lemma_div_by_multiple(1, crate::price::q96());
        },
        SwapDirection::Token1ToToken0 => {
            let x = l * crate::price::q96() * (s1 - s0);
            assert(s0 * s1 == s1 * s0) by (nonlinear_arith);
            vstd::arithmetic::div_mod::lemma_div_is_ordered(s0 * s1, x, s1);
            vstd::arithmetic::div_mod::lemma_div_by_multiple(s0, s1);
            let y = x / s1;
            vstd::arithmetic::div_mod::lemma_div_is_ordered(s0, y, s0);
            vstd::arithmetic::div_mod::lemma_div_by_multiple(1, s0);
        },
    }
    let r_out = raw_out(pool, s1, direction);
    crate::price::lemma_pow10_mono(0, (18 - dec_out(pool, direction)) as nat);
    assert(r_out * crate::price::pow10((18 - dec_out(pool, direction)) as nat) >= 1)
        by (nonlinear_arith)
        requires
            r_out >= 1,
            crate::price::pow10((18 - dec_out(pool, direction)) as nat) >= 1,
    ;
}

/// A positive dividend gives a rounded-up quotient of at least one.
proof fn lemma_ceil_div_at_least_one(x: int, d: int)
    requires
        x >= 1,
        d >= 1,
    ensures
        ceil_div(x, d) >= 1,
{
    vstd::arithmetic::div_mod::lemma_div_is_ordered(d, x + d - 1, d);
    vstd::arithmetic::div_mod::lemma_div_by_multiple(1, d);
}

/// Fee monotonicity: raising the LP fee strictly raises the fee-inclusive
/// input for the same move (the output, which the fee never touches, is
/// unchanged by definition). Strictness needs the raw input to span at
/// least one fee quantum — 10000 raw units; below that the two rounded
/// results can coincide.
pub proof fn lemma_fee_monotonic(x: int, f1: u32, f2: u32)
    requires
        f1 < f2 < 10000,
        x >= 10000,
    ensures
        fee_up(x, f1 as int) < fee_up(x, f2 as int),
{
    let n = x * 10000;
    let d1 = 10000 - f1 as int;
    let d2 = 10000 - f2 as int;
    let c1 = fee_up(x, f1 as int);
    let c2 = fee_up(x, f2 as int);
    lemma_ceil_div_brackets(n, d1);
    lemma_ceil_div_brackets(n, d2);
    // c1 * d1 < n + d1 and c2 * d2 >= n force c1 < c2 once
    // n >= d1 * d2, because the rational gap n/d2 - n/d1 is then >= 1.
    assert(n >= d1 * d2) by (nonlinear_arith)
        requires
            n == x * 10000,
            x >= 10000,
            0 < d1 <= 10000,
            0 < d2 <= 9999,
    ;
    assert(c1 < c2) by (nonlinear_arith)
        requires
            c1 * d1 < n + d1,
            c2 * d2 >= n,
            n >= d1 * d2,
            0 < d2 < d1,
            n > 0,
    ;
}

/// The rounded-up quotient brackets the exact one.
proof fn lemma_ceil_div_brackets(n: int, d: int)
    requires
        n >= 0,
        d > 0,
    ensures
        ceil_div(n, d) * d >= n,
        ceil_div(n, d) * d < n + d,
{
    vstd::arithmetic::div_mod::lemma_fundamental_div_mod(n + d - 1, d);
    vstd::arithmetic::div_mod::lemma_mod_bound(n + d - 1, d);
    assert(ceil_div(n, d) * d == d * ceil_div(n, d)) by (nonlinear_arith);
}

/// Fee monotonicity lifted to the wad input of a whole solve.
pub proof fn lemma_swap_fee_monotonic(
    pool: PoolState,
    s1: int,
    direction: SwapDirection,
    f1: u32,
    f2: u32,
)
    requires
        f1 < f2 < 10000,
        raw_in(pool, s1, direction) >= 10000,
        pool.token0_decimals <= 18,
        pool.token1_decimals <= 18,
    ensures
        swap_in_wad(pool, s1, direction, f1) < swap_in_wad(pool, s1, direction, f2),
        swap_out_wad(pool, s1, direction) == swap_out_wad(pool, s1, direction),
{
    let x = raw_in(pool, s1, direction);
    lemma_fee_monotonic(x, f1, f2);
    crate::price::lemma_pow10_mono(0, (18 - dec_in(pool, direction)) as nat);
    assert(fee_up(x, f1 as int) * crate::price::pow10((18 - dec_in(pool, direction)) as nat)
        < fee_up(x, f2 as int) * crate::price::pow10((18 - dec_in(pool, direction)) as nat))
        by (nonlinear_arith)
        requires
            fee_up(x, f1 as int) < fee_up(x, f2 as int),
            crate::price::pow10((18 - dec_in(pool, direction)) as nat) >= 1,
    ;
}

/// Capping correctness: when the cap is below the uncapped fee-inclusive
/// input, the result spends exactly the cap, scales the output down
/// proportionally (rounded down), and says so.
pub proof fn lemma_capping(
    pool: PoolState,
    s1: int,
    direction: SwapDirection,
    fee_bps: u32,
    max_wad: u128,
)
    requires
        swap_feasible(pool, s1, direction),
        swap_fits(pool, s1, direction, fee_bps),
        0 <= swap_out_wad(pool, s1, direction),
        max_wad < swap_in_wad(pool, s1, direction, fee_bps),
    ensures
        ({
            let res = swap_result_of(pool, s1, direction, fee_bps, max_wad);
            &&& res.amount_in == max_wad
            &&& res.amount_out == swap_out_wad(pool, s1, direction) * max_wad / swap_in_wad(
                pool,
                s1,
                direction,
                fee_bps,
            )
            &&& res.capped_by_max
            &&& !res.hit_boundary
        }),
{
    let in_w = swap_in_wad(pool, s1, direction, fee_bps);
    let out_w = swap_out_wad(pool, s1, direction);
    vstd::arithmetic::mul::lemma_mul_nonnegative(out_w, max_wad as int);
    vstd::arithmetic::div_mod::lemma_div_pos_is_pos(out_w * max_wad, in_w);
    assert(out_w * max_wad <= out_w * in_w) by (nonlinear_arith)
        requires
            0 <= out_w,
            max_wad <= in_w,
    ;
    vstd::arithmetic::div_mod::lemma_div_is_ordered(out_w * max_wad, out_w * in_w, in_w);
    vstd::arithmetic::div_mod::lemma_div_by_multiple(out_w, in_w);
}

/// Multi-segment accumulation: a two-segment traversal that reaches the
/// target in the second segment, uncapped throughout, spends and receives
/// exactly the sums of the two per-segment (single-segment) amounts.
pub proof fn lemma_two_segment_accumulation(
    pool: PoolState,
    segs: Seq<PriceSegment>,
    cur: int,
    s1: int,
    direction: SwapDirection,
    fee_bps: u32,
    budget: int,
)
    requires
        segs.len() == 2,
        ({
            let e0 = leg_end(segs[0].end_sqrt_price_x96 as int, s1, direction);
            let in_r0 = leg_raw_in(cur, e0, segs[0].liquidity as int, direction);
            let out_r0 = leg_raw_out(cur, e0, segs[0].liquidity as int, direction);
            let in_w0 = wad_of(fee_up(in_r0, fee_bps as int), dec_in(pool, direction));
            let out_w0 = wad_of(out_r0, dec_out(pool, direction));
            let e1 = leg_end(segs[1].end_sqrt_price_x96 as int, s1, direction);
            let in_r1 = leg_raw_in(e0, e1, segs[1].liquidity as int, direction);
            let out_r1 = leg_raw_out(e0, e1, segs[1].liquidity as int, direction);
            let in_w1 = wad_of(fee_up(in_r1, fee_bps as int), dec_in(pool, direction));
            let out_w1 = wad_of(out_r1, dec_out(pool, direction));
            &&& e0 != s1
            &&& e1 == s1
            &&& 0 <= in_r0 < b128()
            &&& 0 <= out_r0 < b128()
            &&& fee_up(in_r0, fee_bps as int) < b128()
            &&& 0 <= in_w0 < b128()
            &&& 0 <= out_w0 < b128()
            &&& 0 <= in_r1 < b128()
            &&& 0 <= out_r1 < b128()
            &&& fee_up(in_r1, fee_bps as int) < b128()
            &&& 0 <= in_w1 < b128()
            &&& 0 <= out_w1 < b128()
            &&& in_w0 + in_w1 <= budget
        }),
    ensures
        ({
            let e0 = leg_end(segs[0].end_sqrt_price_x96 as int, s1, direction);
            let in_r0 = leg_raw_in(cur, e0, segs[0].liquidity as int, direction);
            let out_r0 = leg_raw_out(cur, e0, segs[0].liquidity as int, direction);
            let in_w0 = wad_of(fee_up(in_r0, fee_bps as int), dec_in(pool, direction));
            let out_w0 = wad_of(out_r0, dec_out(pool, direction));
            let e1 = leg_end(segs[1].end_sqrt_price_x96 as int, s1, direction);
            let in_r1 = leg_raw_in(e0, e1, segs[1].liquidity as int, direction);
            let out_r1 = leg_raw_out(e0, e1, segs[1].liquidity as int, direction);
            let in_w1 = wad_of(fee_up(in_r1, fee_bps as int), dec_in(pool, direction));
            let out_w1 = wad_of(out_r1, dec_out(pool, direction));
            seg_fold(pool, segs, 0, cur, s1, direction, fee_bps, budget) == Some(
                (in_w0 + in_w1, out_w0 + out_w1, false, true),
            )
        }),
{
    let e0 = leg_end(segs[0].end_sqrt_price_x96 as int, s1, direction);
    let in_r0 = leg_raw_in(cur, e0, segs[0].liquidity as int, direction);
    let in_w0 = wad_of(fee_up(in_r0, fee_bps as int), dec_in(pool, direction));
    assert(seg_fold(pool, segs, 1, e0, s1, direction, fee_bps, budget - in_w0) is Some);
}

/// Gas sensitivity: profit is linear in the gas cost, so raising gas by
/// more than a direction's zero-gas margin over the floor removes that
/// direction's opportunity; raise it past both margins and the evaluator
/// reports nothing.
pub proof fn lemma_gas_removes_opportunities(
    pool: PoolState,
    book: BookDepth,
    cfg: ArbitrageConfig,
    gas: u128,
)
    requires
        book.bids@.len() > 0,
        book.asks@.len() > 0,
        gas > pnl_a(pool, book, cfg, 0) - cfg.min_pnl_usdc,
        gas > pnl_b(pool, book, cfg, 0) - cfg.min_pnl_usdc,
    ensures
        pnl_a(pool, book, cfg, gas) == pnl_a(pool, book, cfg, 0) - gas,
        pnl_b(pool, book, cfg, gas) == pnl_b(pool, book, cfg, 0) - gas,
        !a_reports(pool, book, cfg, gas),
        !b_reports(pool, book, cfg, gas),
{
}

} // verus!
