//! The swap solver: given a pool snapshot, a target execution price, a
//! direction, an LP fee rate and an input cap, compute the exact amounts
//! that must be supplied and received to move the pool price to the target.
//!
//! All results are characterised exactly: curve deltas round the input up
//! and the output down (against the trader), the LP fee divides the input
//! by `1 - fee` rounding up, and a cap scales the output proportionally
//! rounding down.

use vstd::prelude::*;
use vstd::assert_seqs_equal;
use crate::errors::CoreError;
use crate::models::{SwapDirection, SwapResult};
use crate::price::{
    calculate_sqrt_price_with_precision_per_eth, lemma_sqrt_price_unique, pow10,
    pow10_u128, q96, q192, sqrt_price_of, wad_exp,
};
use crate::state::{PoolState, PriceSegment};
use crate::univ3::{amount0_delta, amount1_delta, amt0_down, amt0_up, amt1_down, amt1_up, ceil_div};
use crate::wide::{b128, div_384_256, div_384_256_ceil, mul_128, w256_of, widen_384, Wide256,
    Wide384};

verus! {

/// Input amount after the LP fee: `ceil(x * 10000 / (10000 - fee_bps))`.
pub open spec fn fee_up(x: int, fee_bps: int) -> int {
    ceil_div(x * 10000, 10000 - fee_bps)
}

/// Raw token units scaled to wad (18-decimal) units.
pub open spec fn wad_of(raw: int, decimals: int) -> int {
    raw * pow10((18 - decimals) as nat)
}

/// The inputs the solver accepts; anything else is a malformed snapshot and
/// fails loudly with `InvalidInput`.
pub open spec fn swap_inputs_valid(
    pool: PoolState,
    target_price_wad: u128,
    fee_bps: u32,
) -> bool {
    &&& fee_bps < 10000
    &&& pool.sqrt_price_x96 > 0
    &&& pool.liquidity > 0
    &&& target_price_wad > 0
    &&& pool.token0_decimals <= 18
    &&& pool.token1_decimals <= 18
}

/// The target sqrt-price for a solve, as a spec value.
pub open spec fn target_sqrt(pool: PoolState, target_price_wad: u128) -> int {
    sqrt_price_of(
        wad_exp(pool.token0_decimals, pool.token1_decimals) as nat,
        target_price_wad as int,
    )
}

/// Whether the requested move is on the correct side of the current price:
/// token0-in pushes the sqrt-price down, token1-in pushes it up.
pub open spec fn swap_feasible(pool: PoolState, s1: int, direction: SwapDirection) -> bool {
    match direction {
        SwapDirection::Token0ToToken1 => s1 < pool.sqrt_price_x96,
        SwapDirection::Token1ToToken0 => s1 > pool.sqrt_price_x96,
    }
}

/// Raw input amount (curve delta, rounded up) for a feasible move from the
/// pool's sqrt-price to `s1`.
pub open spec fn raw_in(pool: PoolState, s1: int, direction: SwapDirection) -> int {
    match direction {
        SwapDirection::Token0ToToken1 => amt0_up(s1, pool.sqrt_price_x96 as int, pool.liquidity as int),
        SwapDirection::Token1ToToken0 => amt1_up(pool.sqrt_price_x96 as int, s1, pool.liquidity as int),
    }
}

/// Raw output amount (curve delta, rounded down) for a feasible move from
/// the pool's sqrt-price to `s1`.
pub open spec fn raw_out(pool: PoolState, s1: int, direction: SwapDirection) -> int {
    match direction {
        SwapDirection::Token0ToToken1 => amt1_down(s1, pool.sqrt_price_x96 as int, pool.liquidity as int),
        SwapDirection::Token1ToToken0 => amt0_down(pool.sqrt_price_x96 as int, s1, pool.liquidity as int),
    }
}

/// Decimal scale of the input token for a direction.
pub open spec fn dec_in(pool: PoolState, direction: SwapDirection) -> int {
    match direction {
        SwapDirection::Token0ToToken1 => pool.token0_decimals as int,
        SwapDirection::Token1ToToken0 => pool.token1_decimals as int,
    }
}

/// Decimal scale of the output token for a direction.
pub open spec fn dec_out(pool: PoolState, direction: SwapDirection) -> int {
    match direction {
        SwapDirection::Token0ToToken1 => pool.token1_decimals as int,
        SwapDirection::Token1ToToken0 => pool.token0_decimals as int,
    }
}

/// Fee-adjusted wad input amount for a feasible move.
pub open spec fn swap_in_wad(
    pool: PoolState,
    s1: int,
    direction: SwapDirection,
    fee_bps: u32,
) -> int {
    wad_of(fee_up(raw_in(pool, s1, direction), fee_bps as int), dec_in(pool, direction))
}

/// Wad output amount for a feasible move.
pub open spec fn swap_out_wad(pool: PoolState, s1: int, direction: SwapDirection) -> int {
    wad_of(raw_out(pool, s1, direction), dec_out(pool, direction))
}

/// Every intermediate of a feasible move fits the 128-bit range (and the
/// target sqrt-price did not collapse to zero).
pub open spec fn swap_fits(
    pool: PoolState,
    s1: int,
    direction: SwapDirection,
    fee_bps: u32,
) -> bool {
    &&& s1 > 0
    &&& raw_in(pool, s1, direction) < b128()
    &&& raw_out(pool, s1, direction) < b128()
    &&& fee_up(raw_in(pool, s1, direction), fee_bps as int) < b128()
    &&& swap_in_wad(pool, s1, direction, fee_bps) < b128()
    &&& swap_out_wad(pool, s1, direction) < b128()
}

/// The exact solver result for a feasible move that fits: capped by
/// `max_wad` when the fee-adjusted input exceeds it, with the output scaled
/// back proportionally (rounded down).
pub open spec fn swap_result_ok(
    pool: PoolState,
    s1: int,
    direction: SwapDirection,
    fee_bps: u32,
    max_wad: u128,
    res: SwapResult,
) -> bool {
    let in_w = swap_in_wad(pool, s1, direction, fee_bps);
    let out_w = swap_out_wad(pool, s1, direction);
    if in_w <= max_wad {
        res == SwapResult {
            amount_in: in_w as u128,
            amount_out: out_w as u128,
            hit_boundary: false,
            capped_by_max: false,
        }
    } else {
        res == SwapResult {
            amount_in: max_wad,
            amount_out: (out_w * max_wad / in_w) as u128,
            hit_boundary: false,
            capped_by_max: true,
        }
    }
}

/// The clamped far end of one traversal leg: the segment's own end, cut
/// off at the ultimate target `s1` (whichever is reached first).
pub open spec fn leg_end(seg_end: int, s1: int, direction: SwapDirection) -> int {
    match direction {
        SwapDirection::Token0ToToken1 => if seg_end >= s1 {
            seg_end
        } else {
            s1
        },
        SwapDirection::Token1ToToken0 => if seg_end <= s1 {
            seg_end
        } else {
            s1
        },
    }
}

/// Raw input (rounded up) for a leg from `cur` to `e` at liquidity `liq`.
pub open spec fn leg_raw_in(cur: int, e: int, liq: int, direction: SwapDirection) -> int {
    match direction {
        SwapDirection::Token0ToToken1 => amt0_up(e, cur, liq),
        SwapDirection::Token1ToToken0 => amt1_up(cur, e, liq),
    }
}

/// Raw output (rounded down) for a leg from `cur` to `e` at liquidity `liq`.
pub open spec fn leg_raw_out(cur: int, e: int, liq: int, direction: SwapDirection) -> int {
    match direction {
        SwapDirection::Token0ToToken1 => amt1_down(e, cur, liq),
        SwapDirection::Token1ToToken0 => amt0_down(cur, e, liq),
    }
}

/// The multi-segment traversal, as an index-based fold over the segment
/// list (the current tick's range is the caller-built head segment).
///
/// Starting from sqrt-price `cur` with `budget` wad input units left, each
/// step sizes one leg exactly as the single-segment solver does (input
/// rounded up, fee applied to the input, output rounded down), then either
/// caps against the remaining budget and stops, stops on reaching `s1`, or
/// recurses into the next segment with the reduced budget. The tuple is
/// `(input wad total, output wad total, capped, reached)`; `None` means an
/// exact intermediate needed 128 bits or more.
pub open spec fn seg_fold(
    pool: PoolState,
    segs: Seq<PriceSegment>,
    i: int,
    cur: int,
    s1: int,
    direction: SwapDirection,
    fee_bps: u32,
    budget: int,
) -> Option<(int, int, bool, bool)>
    decreases segs.len() - i,
{
    if i < 0 || i >= segs.len() {
        Some((0, 0, false, false))
    } else {
        let sg = segs[i];
        let e = leg_end(sg.end_sqrt_price_x96 as int, s1, direction);
        let in_r = leg_raw_in(cur, e, sg.liquidity as int, direction);
        let out_r = leg_raw_out(cur, e, sg.liquidity as int, direction);
        let in_f = fee_up(in_r, fee_bps as int);
        let in_w = wad_of(in_f, dec_in(pool, direction));
        let out_w = wad_of(out_r, dec_out(pool, direction));
        if !(in_r < b128() && out_r < b128() && in_f < b128() && in_w < b128() && out_w
            < b128()) {
            None
        } else if in_w > budget {
            Some((budget, out_w * budget / in_w, true, false))
        } else if e == s1 {
            Some((in_w, out_w, false, true))
        } else {
            match seg_fold(pool, segs, i + 1, e, s1, direction, fee_bps, budget - in_w) {
                Some(rest) => Some((in_w + rest.0, out_w + rest.1, rest.2, rest.3)),
                None => None,
            }
        }
    }
}

/// The tail of a segment list is a contiguous chain in the direction of
/// travel, starting at the current sqrt-price.
pub open spec fn tail_chain_ok(
    segs: Seq<PriceSegment>,
    i: int,
    cur: int,
    direction: SwapDirection,
) -> bool {
    &&& (i < segs.len() ==> segs[i].start_sqrt_price_x96 == cur)
    &&& match direction {
        SwapDirection::Token0ToToken1 => forall|j: int|
            i <= j < segs.len() ==> 0 < #[trigger] segs[j].end_sqrt_price_x96 <= segs[j
                ].start_sqrt_price_x96,
        SwapDirection::Token1ToToken0 => forall|j: int|
            i <= j < segs.len() ==> #[trigger] segs[j].start_sqrt_price_x96 <= segs[j
                ].end_sqrt_price_x96,
    }
    &&& forall|j: int|
        i < j < segs.len() ==> #[trigger] segs[j].start_sqrt_price_x96 == segs[j
            - 1].end_sqrt_price_x96
}

/// One leg's amounts are non-negative: the numerators are products of
/// non-negative factors and every divisor is positive.
proof fn lemma_leg_amounts_nonneg(cur: int, e: int, liq: int, direction: SwapDirection)
    requires
        0 < e,
        0 < cur,
        liq >= 0,
        match direction {
            SwapDirection::Token0ToToken1 => e <= cur,
            SwapDirection::Token1ToToken0 => cur <= e,
        },
    ensures
        leg_raw_in(cur, e, liq, direction) >= 0,
        leg_raw_out(cur, e, liq, direction) >= 0,
{
    let lo = if cur <= e { cur } else { e };
    let hi = if cur <= e { e } else { cur };
    assert(liq * q96() * (hi - lo) >= 0 && liq * (hi - lo) >= 0) by (nonlinear_arith)
        requires
            liq >= 0,
            hi >= lo,
            q96() > 0,
    ;
    vstd::arithmetic::div_mod::lemma_div_pos_is_pos(liq * q96() * (hi - lo) + hi - 1, hi);
    let first = ceil_div(liq * q96() * (hi - lo), hi);
    vstd::arithmetic::div_mod::lemma_div_pos_is_pos(first + lo - 1, lo);
    vstd::arithmetic::div_mod::lemma_div_pos_is_pos(liq * q96() * (hi - lo), hi);
    let ffloor = liq * q96() * (hi - lo) / hi;
    vstd::arithmetic::div_mod::lemma_div_pos_is_pos(ffloor, lo);
    vstd::arithmetic::div_mod::lemma_div_pos_is_pos(liq * (hi - lo) + q96() - 1, q96());
    vstd::arithmetic::div_mod::lemma_div_pos_is_pos(liq * (hi - lo), q96());
}

/// Fee adjustment and wad scaling keep amounts non-negative.
proof fn lemma_scaled_nonneg(x: int, fee_bps: u32, decimals: int)
    requires
        x >= 0,
        fee_bps < 10000,
        0 <= decimals <= 18,
    ensures
        fee_up(x, fee_bps as int) >= 0,
        wad_of(fee_up(x, fee_bps as int), decimals) >= 0,
        wad_of(x, decimals) >= 0,
{
    vstd::arithmetic::div_mod::lemma_div_pos_is_pos(
        x * 10000 + (10000 - fee_bps) - 1,
        10000 - fee_bps as int,
    );
    vstd::arithmetic::mul::lemma_mul_nonnegative(
        fee_up(x, fee_bps as int),
        pow10((18 - decimals) as nat) as int,
    );
    vstd::arithmetic::mul::lemma_mul_nonnegative(x, pow10((18 - decimals) as nat) as int);
}

/// A successful fold spends a non-negative amount bounded by its budget,
/// and yields a non-negative output total.
proof fn lemma_fold_in_le_budget(
    pool: PoolState,
    segs: Seq<PriceSegment>,
    i: int,
    cur: int,
    s1: int,
    direction: SwapDirection,
    fee_bps: u32,
    budget: int,
)
    requires
        budget >= 0,
        fee_bps < 10000,
        pool.token0_decimals <= 18,
        pool.token1_decimals <= 18,
        0 < s1,
        0 < cur,
        match direction {
            SwapDirection::Token0ToToken1 => s1 < cur,
            SwapDirection::Token1ToToken0 => s1 > cur,
        },
        tail_chain_ok(segs, i, cur, direction),
        seg_fold(pool, segs, i, cur, s1, direction, fee_bps, budget) is Some,
    ensures
        0 <= (seg_fold(pool, segs, i, cur, s1, direction, fee_bps, budget)->0).0 <= budget,
        0 <= (seg_fold(pool, segs, i, cur, s1, direction, fee_bps, budget)->0).1,
    decreases segs.len() - i,
{
    if 0 <= i < segs.len() {
        let sg = segs[i];
        let e = leg_end(sg.end_sqrt_price_x96 as int, s1, direction);
        let in_r = leg_raw_in(cur, e, sg.liquidity as int, direction);
        let out_r = leg_raw_out(cur, e, sg.liquidity as int, direction);
        let in_f = fee_up(in_r, fee_bps as int);
        let in_w = wad_of(in_f, dec_in(pool, direction));
        let out_w = wad_of(out_r, dec_out(pool, direction));
        lemma_leg_amounts_nonneg(cur, e, sg.liquidity as int, direction);
        lemma_scaled_nonneg(in_r, fee_bps, dec_in(pool, direction));
        lemma_scaled_nonneg(out_r, fee_bps, dec_out(pool, direction));
        if in_r < b128() && out_r < b128() && in_f < b128() && in_w < b128() && out_w < b128() {
            if in_w > budget {
                vstd::arithmetic::mul::lemma_mul_nonnegative(out_w, budget);
                vstd::arithmetic::div_mod::lemma_div_pos_is_pos(out_w * budget, in_w);
            } else if e != s1 {
                lemma_fold_in_le_budget(
                    pool,
                    segs,
                    i + 1,
                    e,
                    s1,
                    direction,
                    fee_bps,
                    budget - in_w,
                );
            }
        }
    }
}

/// A bracketing pair of inequalities pins the rounded-up quotient.
pub proof fn lemma_ceil_div_unique(n: int, d: int, c: int)
    requires
        d > 0,
        n >= 0,
        c * d >= n,
        c * d < n + d,
    ensures
        c == ceil_div(n, d),
{
    assert((c + 1) * d == c * d + d) by (nonlinear_arith);
    assert(c >= 0) by (nonlinear_arith)
        requires
            c * d > n - d,
            n >= 0,
            d > 0,
    ;
    vstd::arithmetic::div_mod::lemma_fundamental_div_mod_converse(
        n + d - 1,
        d,
        c,
        n + d - 1 - c * d,
    );
}

/// Scale a raw token amount to wad units; `Overflow` when the wad form
/// needs 128 bits or more.
fn raw_to_wad(raw: u128, decimals: u8) -> (r: Result<u128, CoreError>)
    requires
        decimals <= 18,
    ensures
        match r {
            Ok(w) => w == wad_of(raw as int, decimals as int),
            Err(e) => e == CoreError::Overflow && wad_of(raw as int, decimals as int) >= b128(),
        },
{
    let factor: u128 = pow10_u128(18 - decimals as u32);
    match raw.checked_mul(factor) {
        Some(w) => Ok(w),
        None => Err(CoreError::Overflow),
    }
}

/// Divide a raw input amount by `1 - fee` (in basis points), rounding up;
/// `Overflow` when the adjusted amount needs 128 bits or more.
fn apply_input_fee(amount: u128, fee_bps: u32) -> (r: Result<u128, CoreError>)
    requires
        fee_bps < 10000,
    ensures
        match r {
            Ok(a) => a == fee_up(amount as int, fee_bps as int),
            Err(e) => e == CoreError::Overflow && fee_up(amount as int, fee_bps as int) >= b128(),
        },
{
    let n: Wide384 = widen_384(mul_128(amount, 10000));
    let d: Wide256 = w256_of(10000 - fee_bps as u128);
    match div_384_256_ceil(n, d) {
        Some(c) => {
            proof {
                lemma_ceil_div_unique(
                    amount as int * 10000,
                    10000 - fee_bps as int,
                    c as int,
                );
            }
            Ok(c)
        },
        None => {
            proof {
                // The rounded-up quotient exceeds every u128 value.
                assert(fee_up(amount as int, fee_bps as int) >= b128()) by {
                    let n_i = amount as int * 10000;
                    let d_i = 10000 - fee_bps as int;
                    assert(n_i > (b128() - 1) * d_i);
                    assert(ceil_div(n_i, d_i) >= b128()) by (nonlinear_arith)
                        requires
                            d_i > 0,
                            n_i > (b128() - 1) * d_i,
                            ceil_div(n_i, d_i) == (n_i + d_i - 1) / d_i,
                    {
                        vstd::arithmetic::div_mod::lemma_div_is_ordered(
                            (b128() - 1) * d_i + d_i,
                            n_i + d_i - 1,
                            d_i,
                        );
                        vstd::arithmetic::div_mod::lemma_div_by_multiple(b128(), d_i);
                        assert((b128() - 1) * d_i + d_i == b128() * d_i) by (nonlinear_arith);
                    }
                }
            }
            Err(CoreError::Overflow)
        },
    }
}

/// One step of the multi-segment traversal: size the leg from `cur` to the
/// clamped end of segment `i`, cap against the remaining budget, and
/// recurse into the next segment otherwise. Mirrors `seg_fold` exactly.
fn solve_segments(
    pool: &PoolState,
    segs: &Vec<PriceSegment>,
    i: usize,
    cur: u128,
    s1: u128,
    direction: SwapDirection,
    fee_bps: u32,
    budget: u128,
) -> (r: Result<(u128, u128, bool, bool), CoreError>)
    requires
        fee_bps < 10000,
        pool.token0_decimals <= 18,
        pool.token1_decimals <= 18,
        i <= segs@.len(),
        0 < s1,
        0 < cur,
        match direction {
            SwapDirection::Token0ToToken1 => s1 < cur,
            SwapDirection::Token1ToToken0 => s1 > cur,
        },
        tail_chain_ok(segs@, i as int, cur as int, direction),
    ensures
        match seg_fold(
            *pool,
            segs@,
            i as int,
            cur as int,
            s1 as int,
            direction,
            fee_bps,
            budget as int,
        ) {
            Some(t) => if t.1 < b128() {
                r == Result::<(u128, u128, bool, bool), CoreError>::Ok(
                    (t.0 as u128, t.1 as u128, t.2, t.3),
                )
            } else {
                r == Result::<(u128, u128, bool, bool), CoreError>::Err(CoreError::Overflow)
            },
            None => r == Result::<(u128, u128, bool, bool), CoreError>::Err(CoreError::Overflow),
        },
    decreases segs@.len() - i,
{
    if i == segs.len() {
        return Ok((0, 0, false, false));
    }
    let sg: PriceSegment = segs[i];
    let e: u128 = match direction {
        SwapDirection::Token0ToToken1 => if sg.end_sqrt_price_x96 >= s1 {
            sg.end_sqrt_price_x96
        } else {
            s1
        },
        SwapDirection::Token1ToToken0 => if sg.end_sqrt_price_x96 <= s1 {
            sg.end_sqrt_price_x96
        } else {
            s1
        },
    };
    let (in_opt, out_opt): (Option<u128>, Option<u128>) = match direction {
        SwapDirection::Token0ToToken1 => (
            amount0_delta(e, cur, sg.liquidity, true),
            amount1_delta(e, cur, sg.liquidity, false),
        ),
        SwapDirection::Token1ToToken0 => (
            amount1_delta(cur, e, sg.liquidity, true),
            amount0_delta(cur, e, sg.liquidity, false),
        ),
    };
    let in_raw: u128 = match in_opt {
        Some(v) => v,
        None => {
            return Err(CoreError::Overflow);
        },
    };
    let out_raw: u128 = match out_opt {
        Some(v) => v,
        None => {
            return Err(CoreError::Overflow);
        },
    };
    let in_fee_raw: u128 = match apply_input_fee(in_raw, fee_bps) {
        Ok(a) => a,
        Err(err) => {
            return Err(err);
        },
    };
    let d_in: u8 = match direction {
        SwapDirection::Token0ToToken1 => pool.token0_decimals,
        SwapDirection::Token1ToToken0 => pool.token1_decimals,
    };
    let d_out: u8 = match direction {
        SwapDirection::Token0ToToken1 => pool.token1_decimals,
        SwapDirection::Token1ToToken0 => pool.token0_decimals,
    };
    let in_wad: u128 = match raw_to_wad(in_fee_raw, d_in) {
        Ok(w) => w,
        Err(err) => {
            return Err(err);
        },
    };
    let out_wad: u128 = match raw_to_wad(out_raw, d_out) {
        Ok(w) => w,
        Err(err) => {
            return Err(err);
        },
    };
    if in_wad > budget {
        // This leg exhausts the budget: consume it and scale the output
        // down proportionally.
        let n: Wide384 = widen_384(mul_128(out_wad, budget));
        let d: Wide256 = w256_of(in_wad);
        let scaled: u128 = match div_384_256(n, d) {
            Some(q) => q,
            None => {
                proof {
                    assert((out_wad as int) * (budget as int) < b128() * (in_wad as int))
                        by (nonlinear_arith)
                        requires
                            budget < in_wad,
                            out_wad < b128(),
                            0 <= out_wad,
                            0 <= budget,
                            in_wad > 0,
                    ;
                    assert(false);
                }
                0
            },
        };
        Ok((budget, scaled, true, false))
    } else if e == s1 {
        Ok((in_wad, out_wad, false, true))
    } else {
        match solve_segments(pool, segs, i + 1, e, s1, direction, fee_bps, budget - in_wad) {
            Ok((ti, to, c, reached)) => {
                proof {
                    lemma_fold_in_le_budget(
                        *pool,
                        segs@,
                        i + 1 as int,
                        e as int,
                        s1 as int,
                        direction,
                        fee_bps,
                        budget - in_wad,
                    );
                }
                match out_wad.checked_add(to) {
                    Some(o) => Ok((in_wad + ti, o, c, reached)),
                    None => Err(CoreError::Overflow),
                }
            },
            Err(err) => Err(err),
        }
    }
}

/// Solve a single-segment swap: the exact amounts to move the pool's price
/// to `target_price_wad` using only the current tick's liquidity, honoring
/// the LP fee and the caller's input cap.
///
/// An infeasible direction (target on the wrong side of the current price)
/// yields the zero result with no error; malformed inputs fail with
/// `InvalidInput`; a move whose exact amounts exceed the 128-bit range
/// fails with `Overflow`.
pub fn calculate_swap_with_library(
    pool: &PoolState,
    target_price_wad: u128,
    direction: SwapDirection,
    fee_bps: u32,
    max_amount_wad: u128,
) -> (r: Result<SwapResult, CoreError>)
    ensures
        ({
            let s1 = target_sqrt(*pool, target_price_wad);
            let valid = swap_inputs_valid(*pool, target_price_wad, fee_bps);
            let s1_fits = q192() * pow10(
                wad_exp(pool.token0_decimals, pool.token1_decimals) as nat,
            ) < b128() * b128() * target_price_wad;
            &&& (r == Result::<SwapResult, CoreError>::Err(CoreError::InvalidInput) <==> !valid)
            &&& (valid && s1_fits && !swap_feasible(*pool, s1, direction)) ==> r
                == Result::<SwapResult, CoreError>::Ok(SwapResult::zero_spec())
            &&& (valid && s1_fits && swap_feasible(*pool, s1, direction) && swap_fits(
                *pool,
                s1,
                direction,
                fee_bps,
            )) ==> (r is Ok && swap_result_ok(
                *pool,
                s1,
                direction,
                fee_bps,
                max_amount_wad,
                r->Ok_0,
            ))
            &&& (r is Err && r->Err_0 == CoreError::Overflow) ==> (valid && (!s1_fits || (
            swap_feasible(*pool, s1, direction) && !swap_fits(*pool, s1, direction, fee_bps))))
            &&& (valid && !s1_fits) ==> r == Result::<SwapResult, CoreError>::Err(
                CoreError::Overflow,
            )
            &&& r is Ok ==> (!swap_feasible(*pool, s1, direction) || swap_fits(
                *pool,
                s1,
                direction,
                fee_bps,
            ))
        }),
{
    if fee_bps >= 10000 || pool.sqrt_price_x96 == 0 || pool.liquidity == 0 || target_price_wad
        == 0 || pool.token0_decimals > 18 || pool.token1_decimals > 18 {
        return Err(CoreError::InvalidInput);
    }
    let s0: u128 = pool.sqrt_price_x96;
    let liquidity: u128 = pool.liquidity;
    let s1: u128 = match calculate_sqrt_price_with_precision_per_eth(
        target_price_wad,
        pool.token0_decimals,
        pool.token1_decimals,
    ) {
        Ok(s) => s,
        Err(_) => {
            // The decimal range is valid here, so only the sqrt-price
            // overflow case remains.
            return Err(CoreError::Overflow);
        },
    };
    proof {
        let k = wad_exp(pool.token0_decimals, pool.token1_decimals) as nat;
        lemma_sqrt_price_unique(s1 as int, k, target_price_wad as int);
        // A sqrt-price that fits u128 bounds the radicand below 2^256 * m.
        assert(q192() * pow10(k) < b128() * b128() * target_price_wad) by (nonlinear_arith)
            requires
                q192() * pow10(k) < (s1 + 1) * (s1 + 1) * target_price_wad,
                0 <= s1 < b128(),
                target_price_wad > 0,
                b128() > 0,
        ;
    }
    let feasible: bool = match direction {
        SwapDirection::Token0ToToken1 => s1 < s0,
        SwapDirection::Token1ToToken0 => s1 > s0,
    };
    if !feasible {
        return Ok(SwapResult::zero());
    }
    if s1 == 0 {
        return Err(CoreError::Overflow);
    }
    // Exact curve deltas: input rounded up, output rounded down.
    let (in_opt, out_opt): (Option<u128>, Option<u128>) = match direction {
        SwapDirection::Token0ToToken1 => (
            amount0_delta(s1, s0, liquidity, true),
            amount1_delta(s1, s0, liquidity, false),
        ),
        SwapDirection::Token1ToToken0 => (
            amount1_delta(s0, s1, liquidity, true),
            amount0_delta(s0, s1, liquidity, false),
        ),
    };
    let in_raw: u128 = match in_opt {
        Some(v) => v,
        None => {
            return Err(CoreError::Overflow);
        },
    };
    let out_raw: u128 = match out_opt {
        Some(v) => v,
        None => {
            return Err(CoreError::Overflow);
        },
    };
    let in_fee_raw: u128 = match apply_input_fee(in_raw, fee_bps) {
        Ok(a) => a,
        Err(e) => {
            return Err(e);
        },
    };
    let d_in: u8 = match direction {
        SwapDirection::Token0ToToken1 => pool.token0_decimals,
        SwapDirection::Token1ToToken0 => pool.token1_decimals,
    };
    let d_out: u8 = match direction {
        SwapDirection::Token0ToToken1 => pool.token1_decimals,
        SwapDirection::Token1ToToken0 => pool.token0_decimals,
    };
    let in_wad: u128 = match raw_to_wad(in_fee_raw, d_in) {
        Ok(w) => w,
        Err(e) => {
            return Err(e);
        },
    };
    let out_wad: u128 = match raw_to_wad(out_raw, d_out) {
        Ok(w) => w,
        Err(e) => {
            return Err(e);
        },
    };
    if in_wad <= max_amount_wad {
        Ok(SwapResult {
            amount_in: in_wad,
            amount_out: out_wad,
            hit_boundary: false,
            capped_by_max: false,
        })
    } else {
        // Cap the input and scale the output down proportionally.
        let n: Wide384 = widen_384(mul_128(out_wad, max_amount_wad));
        let d: Wide256 = w256_of(in_wad);
        let out_capped: u128 = match div_384_256(n, d) {
            Some(q) => q,
            None => {
                proof {
                    // Unreachable: the scaled output is at most the output.
                    assert((out_wad as int) * (max_amount_wad as int) < b128() * (
                    in_wad as int)) by (nonlinear_arith)
                        requires
                            max_amount_wad < in_wad,
                            out_wad < b128(),
                            0 <= out_wad,
                            0 <= max_amount_wad,
                            in_wad > 0,
                    ;
                    assert(false);
                }
                0
            },
        };
        Ok(SwapResult {
            amount_in: max_amount_wad,
            amount_out: out_capped,
            hit_boundary: false,
            capped_by_max: true,
        })
    }
}

/// The realized average execution price (quote per base, in wad units) of
/// a solve, computed from the accumulated amounts rather than the
/// requested target, so callers can detect a partial fill at
/// worse-than-requested pricing. For token0-in swaps the quote is the
/// input and the base the output; for token1-in swaps the reverse. An
/// empty fill, or a ratio beyond the 128-bit wad range, reports zero —
/// exactly as stated below, never silently.
pub fn realized_avg_price(res: &SwapResult, direction: SwapDirection) -> (p: u128)
    ensures
        ({
            let (quote, base): (u128, u128) = match direction {
                SwapDirection::Token0ToToken1 => (res.amount_in, res.amount_out),
                SwapDirection::Token1ToToken0 => (res.amount_out, res.amount_in),
            };
            if base == 0 {
                p == 0
            } else if quote * crate::models::WAD / (base as int) < b128() {
                p == quote * crate::models::WAD / (base as int)
            } else {
                p == 0
            }
        }),
{
    let (quote, base): (u128, u128) = match direction {
        SwapDirection::Token0ToToken1 => (res.amount_in, res.amount_out),
        SwapDirection::Token1ToToken0 => (res.amount_out, res.amount_in),
    };
    if base == 0 {
        return 0;
    }
    let n: Wide384 = widen_384(mul_128(quote, crate::models::WAD));
    match div_384_256(n, w256_of(base)) {
        Some(q) => q,
        None => {
            proof {
                vstd::arithmetic::div_mod::lemma_div_is_ordered(
                    b128() * base as int,
                    quote as int * crate::models::WAD as int,
                    base as int,
                );
                vstd::arithmetic::div_mod::lemma_div_by_multiple(b128(), base as int);
            }
            0
        },
    }
}

/// The virtual head segment for a multi-segment solve: the current tick's
/// own range, from the pool's sqrt-price to its known bound (or straight
/// to the target when no bound is known), at the pool's active liquidity.
pub open spec fn head_segment(pool: PoolState, s1: int, direction: SwapDirection) -> PriceSegment {
    let bound = match direction {
        SwapDirection::Token0ToToken1 => pool.limit_lower_sqrt_price_x96,
        SwapDirection::Token1ToToken0 => pool.limit_upper_sqrt_price_x96,
    };
    PriceSegment {
        start_sqrt_price_x96: pool.sqrt_price_x96,
        end_sqrt_price_x96: match bound {
            Some(b) => b,
            None => s1 as u128,
        },
        liquidity: pool.liquidity,
    }
}

/// The full traversal list for a multi-segment solve: the current tick's
/// range followed by the pre-built segments in the direction of travel.
pub open spec fn traversal(pool: PoolState, s1: int, direction: SwapDirection) -> Seq<
    PriceSegment,
> {
    seq![head_segment(pool, s1, direction)] + match direction {
        SwapDirection::Token0ToToken1 => pool.segments_down@,
        SwapDirection::Token1ToToken0 => pool.segments_up@,
    }
}

/// Solve a swap across the current tick's range and the pre-built
/// liquidity segments beyond it, accumulating per-segment amounts, capping
/// against the remaining input budget, and stopping at the target price,
/// at the last available segment (`hit_boundary`), or at the cap
/// (`capped_by_max`).
///
/// The result is exactly the `seg_fold` traversal over `traversal(...)`:
/// per-segment amounts are summed, never overwritten.
pub fn calculate_swap_multi_segment(
    pool: &PoolState,
    target_price_wad: u128,
    direction: SwapDirection,
    fee_bps: u32,
    max_amount_wad: u128,
) -> (r: Result<SwapResult, CoreError>)
    ensures
        ({
            let s1 = target_sqrt(*pool, target_price_wad);
            let valid = swap_inputs_valid(*pool, target_price_wad, fee_bps) && pool.wf();
            let s1_fits = q192() * pow10(
                wad_exp(pool.token0_decimals, pool.token1_decimals) as nat,
            ) < b128() * b128() * target_price_wad;
            &&& (r == Result::<SwapResult, CoreError>::Err(CoreError::InvalidInput) <==> !valid)
            &&& (valid && s1_fits && !swap_feasible(*pool, s1, direction)) ==> r
                == Result::<SwapResult, CoreError>::Ok(SwapResult::zero_spec())
            &&& (valid && s1_fits && swap_feasible(*pool, s1, direction) && s1 > 0) ==> match
                seg_fold(
                *pool,
                traversal(*pool, s1, direction),
                0,
                pool.sqrt_price_x96 as int,
                s1,
                direction,
                fee_bps,
                max_amount_wad as int,
            ) {
                Some(t) => if t.1 < b128() {
                    r == Result::<SwapResult, CoreError>::Ok(
                        SwapResult {
                            amount_in: t.0 as u128,
                            amount_out: t.1 as u128,
                            hit_boundary: !t.2 && !t.3,
                            capped_by_max: t.2,
                        },
                    )
                } else {
                    r == Result::<SwapResult, CoreError>::Err(CoreError::Overflow)
                },
                None => r == Result::<SwapResult, CoreError>::Err(CoreError::Overflow),
            }
            &&& (valid && s1_fits && swap_feasible(*pool, s1, direction) && s1 == 0) ==> r
                == Result::<SwapResult, CoreError>::Err(CoreError::Overflow)
            &&& (valid && !s1_fits) ==> r == Result::<SwapResult, CoreError>::Err(
                CoreError::Overflow,
            )
        }),
{
    if fee_bps >= 10000 || pool.sqrt_price_x96 == 0 || pool.liquidity == 0 || target_price_wad
        == 0 || pool.token0_decimals > 18 || pool.token1_decimals > 18 || !pool.validate() {
        return Err(CoreError::InvalidInput);
    }
    let s0: u128 = pool.sqrt_price_x96;
    let s1: u128 = match calculate_sqrt_price_with_precision_per_eth(
        target_price_wad,
        pool.token0_decimals,
        pool.token1_decimals,
    ) {
        Ok(s) => s,
        Err(_) => {
            return Err(CoreError::Overflow);
        },
    };
    proof {
        let k = wad_exp(pool.token0_decimals, pool.token1_decimals) as nat;
        lemma_sqrt_price_unique(s1 as int, k, target_price_wad as int);
        assert(q192() * pow10(k) < b128() * b128() * target_price_wad) by (nonlinear_arith)
            requires
                q192() * pow10(k) < (s1 + 1) * (s1 + 1) * target_price_wad,
                0 <= s1 < b128(),
                target_price_wad > 0,
                b128() > 0,
        ;
    }
    let feasible: bool = match direction {
        SwapDirection::Token0ToToken1 => s1 < s0,
        SwapDirection::Token1ToToken0 => s1 > s0,
    };
    if !feasible {
        return Ok(SwapResult::zero());
    }
    if s1 == 0 {
        return Err(CoreError::Overflow);
    }
    // Build the traversal: the current range first, then the segment list.
    let bound: Option<u128> = match direction {
        SwapDirection::Token0ToToken1 => pool.limit_lower_sqrt_price_x96,
        SwapDirection::Token1ToToken0 => pool.limit_upper_sqrt_price_x96,
    };
    let head: PriceSegment = PriceSegment {
        start_sqrt_price_x96: s0,
        end_sqrt_price_x96: match bound {
            Some(b) => b,
            None => s1,
        },
        liquidity: pool.liquidity,
    };
    let tail: &Vec<PriceSegment> = match direction {
        SwapDirection::Token0ToToken1 => &pool.segments_down,
        SwapDirection::Token1ToToken0 => &pool.segments_up,
    };
    let mut segs: Vec<PriceSegment> = Vec::new();
    segs.push(head);
    let mut i: usize = 0;
    while i < tail.len()
        invariant
            i <= tail@.len(),
            segs@ == seq![head] + tail@.subrange(0, i as int),
        decreases tail@.len() - i,
    {
        segs.push(tail[i]);
        proof {
            assert(segs@ == seq![head] + tail@.subrange(0, i + 1 as int)) by {
                assert_seqs_equal!(segs@, seq![head] + tail@.subrange(0, i + 1 as int));
            }
        }
        i = i + 1;
    }
    proof {
        assert(tail@.subrange(0, tail@.len() as int) == tail@);
        assert(segs@ == traversal(*pool, s1 as int, direction));
        // The traversal is a contiguous chain: the head covers the current
        // range down/up to its bound, and the snapshot's own chains hang
        // off that bound.
        assert(tail_chain_ok(segs@, 0, s0 as int, direction)) by {
            assert(segs@[0] == head);
            assert(forall|j: int| 1 <= j < segs@.len() ==> segs@[j] == tail@[j - 1]);
            match direction {
                SwapDirection::Token0ToToken1 => {
                    assert forall|j: int| 0 <= j < segs@.len() implies 0
                        < #[trigger] segs@[j].end_sqrt_price_x96
                        <= segs@[j].start_sqrt_price_x96 by {
                        if j > 0 {
                            assert(segs@[j] == pool.segments_down@[j - 1]);
                        }
                    }
                    assert forall|j: int| 0 < j < segs@.len() implies #[trigger]
                        segs@[j].start_sqrt_price_x96 == segs@[j - 1].end_sqrt_price_x96 by {
                        if j == 1 {
                            assert(segs@[1] == pool.segments_down@[0]);
                        } else {
                            assert(segs@[j] == pool.segments_down@[j - 1]);
                            assert(segs@[j - 1] == pool.segments_down@[j - 2]);
                        }
                    }
                },
                SwapDirection::Token1ToToken0 => {
                    assert forall|j: int| 0 <= j < segs@.len() implies #[trigger]
                        segs@[j].start_sqrt_price_x96 <= segs@[j].end_sqrt_price_x96 by {
                        if j > 0 {
                            assert(segs@[j] == pool.segments_up@[j - 1]);
                        }
                    }
                    assert forall|j: int| 0 < j < segs@.len() implies #[trigger]
                        segs@[j].start_sqrt_price_x96 == segs@[j - 1].end_sqrt_price_x96 by {
                        if j == 1 {
                            assert(segs@[1] == pool.segments_up@[0]);
                        } else {
                            assert(segs@[j] == pool.segments_up@[j - 1]);
                            assert(segs@[j - 1] == pool.segments_up@[j - 2]);
                        }
                    }
                },
            }
        }
    }
    match solve_segments(pool, &segs, 0, s0, s1, direction, fee_bps, max_amount_wad) {
        Ok((amount_in, amount_out, capped, reached)) => Ok(
            SwapResult {
                amount_in,
                amount_out,
                hit_boundary: !capped && !reached,
                capped_by_max: capped,
            },
        ),
        Err(e) => Err(e),
    }
}

} // verus!
