//! The arbitrage evaluator: each tick it sizes a round trip in both
//! directions against the best book levels, applies exchange fees and the
//! gas cost, and reports the opportunities that clear the profit floor.
//!
//! Fee convention: the CEX fee is folded into the solver's target price
//! (bid lowered, ask raised) before solving, and the DEX LP fee is applied
//! by the solver to the input amount; the profit formulas below therefore
//! never subtract either fee again.

use vstd::prelude::*;
use crate::calc::{
    calculate_swap_with_library, swap_feasible, swap_fits, swap_in_wad, swap_inputs_valid,
    swap_out_wad,
};
use crate::errors::CoreError;
use crate::fmt::{push_wad, wad_digits};
use crate::models::{BookDepth, SwapDirection, SwapResult, WAD};
use crate::price::{pow10, q192, sqrt_price_of, wad_exp};
use crate::state::PoolState;
use crate::univ3::ceil_div;
use crate::wide::{b128, div_384_256, div_384_256_ceil, mul_128, w256, w256_of, w384, widen_384,
    Wide256, Wide384};

verus! {

/// Configuration for one evaluation tick; fees in basis points, the
/// profit floor in signed wad quote units (at or below zero to surface
/// marginal results).
#[derive(Clone, Copy, Debug)]
pub struct ArbitrageConfig {
    pub min_pnl_usdc: i128,
    pub dex_fee_bps: u32,
    pub cex_fee_bps: u32,
}

/// The two round-trip directions.
#[derive(Clone, Copy, Debug, PartialEq, Eq, Structural)]
pub enum OppDirection {
    /// Buy on the DEX, sell on the CEX at the best bid.
    A,
    /// Buy on the CEX at the best ask, sell on the DEX.
    B,
}

/// One profitable round trip: its direction, a human-readable summary and
/// the signed wad profit after fees and gas.
#[derive(Clone, Debug)]
pub struct ArbitrageOpportunity {
    pub direction: OppDirection,
    pub description: String,
    pub pnl: i128,
}

/// Best-bid price lowered by the CEX fee (rounded down, against the
/// trader): `bid * (10000 - cex_bps) / 10000`.
pub open spec fn eff_bid(bid: int, cex_bps: int) -> int {
    bid * (10000 - cex_bps) / 10000
}

/// Best-ask price raised by the CEX fee (rounded up, against the trader):
/// `ceil(ask * (10000 + cex_bps) / 10000)`.
pub open spec fn eff_ask(ask: int, cex_bps: int) -> int {
    ceil_div(ask * (10000 + cex_bps), 10000)
}

/// The solver's exact result as a value: zero when infeasible, capped when
/// the fee-adjusted input exceeds the cap.
pub open spec fn swap_result_of(
    pool: PoolState,
    s1: int,
    direction: SwapDirection,
    fee_bps: u32,
    max_wad: u128,
) -> SwapResult {
    if !swap_feasible(pool, s1, direction) {
        SwapResult::zero_spec()
    } else {
        let in_w = swap_in_wad(pool, s1, direction, fee_bps);
        let out_w = swap_out_wad(pool, s1, direction);
        if in_w <= max_wad {
            SwapResult {
                amount_in: in_w as u128,
                amount_out: out_w as u128,
                hit_boundary: false,
                capped_by_max: false,
            }
        } else {
            SwapResult {
                amount_in: max_wad,
                amount_out: (out_w * max_wad / in_w) as u128,
                hit_boundary: false,
                capped_by_max: true,
            }
        }
    }
}

/// Direction A's swap result: solve token0-in toward the fee-lowered bid,
/// capped by the bid quantity.
pub open spec fn a_swap(pool: PoolState, book: BookDepth, cfg: ArbitrageConfig) -> SwapResult {
    let bid = book.bids@[0].0;
    let qty = book.bids@[0].1;
    let target = eff_bid(bid as int, cfg.cex_fee_bps as int);
    swap_result_of(
        pool,
        sqrt_price_of(
            wad_exp(pool.token0_decimals, pool.token1_decimals) as nat,
            target,
        ),
        SwapDirection::Token0ToToken1,
        cfg.dex_fee_bps,
        qty,
    )
}

/// Direction B's swap result: solve token1-in toward the fee-raised ask,
/// capped by the ask quantity.
pub open spec fn b_swap(pool: PoolState, book: BookDepth, cfg: ArbitrageConfig) -> SwapResult {
    let ask = book.asks@[0].0;
    let qty = book.asks@[0].1;
    let target = eff_ask(ask as int, cfg.cex_fee_bps as int);
    swap_result_of(
        pool,
        sqrt_price_of(
            wad_exp(pool.token0_decimals, pool.token1_decimals) as nat,
            target,
        ),
        SwapDirection::Token1ToToken0,
        cfg.dex_fee_bps,
        qty,
    )
}

/// Direction A's profit: revenue from selling the DEX output at the raw
/// bid, minus the fee-inclusive DEX cost, minus gas (the CEX fee is
/// already inside the solver's target).
pub open spec fn pnl_a(pool: PoolState, book: BookDepth, cfg: ArbitrageConfig, gas: u128) -> int {
    let res = a_swap(pool, book, cfg);
    let bid = book.bids@[0].0;
    bid * res.amount_out / (WAD as int) - res.amount_in - gas
}

/// Direction B's profit: the DEX quote output, minus the cost of buying
/// the input on the CEX at the fee-raised ask (rounded up), minus gas.
pub open spec fn pnl_b(pool: PoolState, book: BookDepth, cfg: ArbitrageConfig, gas: u128) -> int {
    let res = b_swap(pool, book, cfg);
    let ask = book.asks@[0].0;
    res.amount_out - ceil_div(eff_ask(ask as int, cfg.cex_fee_bps as int) * res.amount_in, WAD as int)
        - gas
}

/// Whether direction A reports an opportunity: positive output and profit
/// at or above the floor.
pub open spec fn a_reports(pool: PoolState, book: BookDepth, cfg: ArbitrageConfig, gas: u128) -> bool {
    a_swap(pool, book, cfg).amount_out > 0 && pnl_a(pool, book, cfg, gas) >= cfg.min_pnl_usdc
}

/// Whether direction B reports an opportunity: positive input and profit
/// at or above the floor.
pub open spec fn b_reports(pool: PoolState, book: BookDepth, cfg: ArbitrageConfig, gas: u128) -> bool {
    b_swap(pool, book, cfg).amount_in > 0 && pnl_b(pool, book, cfg, gas) >= cfg.min_pnl_usdc
}

/// A signed wad value's digits: a minus sign for negative values.
pub open spec fn signed_wad_digits(p: int, frac: nat) -> Seq<char> {
    if p < 0 {
        seq!['-'] + wad_digits((-p) as nat, frac)
    } else {
        wad_digits(p as nat, frac)
    }
}

/// The direction-A summary line.
pub open spec fn desc_a(out: nat, bid: nat, pnl: int) -> Seq<char> {
    "A: Buy "@ + wad_digits(out, 6) + " ETH on DEX -> Sell on CEX @ $"@ + wad_digits(bid, 2)
        + " | Earn $"@ + signed_wad_digits(pnl, 2)
}

/// The direction-B summary line.
pub open spec fn desc_b(amount: nat, ask: nat, pnl: int) -> Seq<char> {
    "B: Buy "@ + wad_digits(amount, 6) + " ETH on CEX -> Sell on DEX @ $"@ + wad_digits(ask, 2)
        + " | Earn $"@ + signed_wad_digits(pnl, 2)
}

/// The expected direction-A entry.
pub open spec fn opp_is_a(
    o: ArbitrageOpportunity,
    pool: PoolState,
    book: BookDepth,
    cfg: ArbitrageConfig,
    gas: u128,
) -> bool {
    &&& o.direction == OppDirection::A
    &&& o.pnl == pnl_a(pool, book, cfg, gas)
    &&& o.description@ == desc_a(
        a_swap(pool, book, cfg).amount_out as nat,
        book.bids@[0].0 as nat,
        pnl_a(pool, book, cfg, gas),
    )
}

/// The expected direction-B entry.
pub open spec fn opp_is_b(
    o: ArbitrageOpportunity,
    pool: PoolState,
    book: BookDepth,
    cfg: ArbitrageConfig,
    gas: u128,
) -> bool {
    &&& o.direction == OppDirection::B
    &&& o.pnl == pnl_b(pool, book, cfg, gas)
    &&& o.description@ == desc_b(
        b_swap(pool, book, cfg).amount_in as nat,
        book.asks@[0].0 as nat,
        pnl_b(pool, book, cfg, gas),
    )
}

/// The full expected output: direction A first, then direction B.
pub open spec fn opps_match(
    s: Seq<ArbitrageOpportunity>,
    pool: PoolState,
    book: BookDepth,
    cfg: ArbitrageConfig,
    gas: u128,
) -> bool {
    let a = a_reports(pool, book, cfg, gas);
    let b = b_reports(pool, book, cfg, gas);
    if a && b {
        s.len() == 2 && opp_is_a(s[0], pool, book, cfg, gas) && opp_is_b(s[1], pool, book, cfg, gas)
    } else if a {
        s.len() == 1 && opp_is_a(s[0], pool, book, cfg, gas)
    } else if b {
        s.len() == 1 && opp_is_b(s[0], pool, book, cfg, gas)
    } else {
        s.len() == 0
    }
}

/// Inputs a non-empty-book evaluation accepts: a well-formed snapshot and
/// fee rates below 100%, with both fee-adjusted targets positive.
pub open spec fn eval_valid(pool: PoolState, book: BookDepth, cfg: ArbitrageConfig) -> bool {
    &&& cfg.cex_fee_bps < 10000
    &&& swap_inputs_valid(pool, 1u128, cfg.dex_fee_bps)
    &&& eff_bid(book.bids@[0].0 as int, cfg.cex_fee_bps as int) > 0
    &&& eff_ask(book.asks@[0].0 as int, cfg.cex_fee_bps as int) > 0
}

/// One direction's solve and profit arithmetic stays inside the ranges the
/// evaluator computes in.
pub open spec fn dir_fits(
    pool: PoolState,
    target: int,
    direction: SwapDirection,
    cfg: ArbitrageConfig,
    qty: u128,
    price_for_pnl: int,
    gas: u128,
) -> bool {
    let k = wad_exp(pool.token0_decimals, pool.token1_decimals) as nat;
    let s1 = sqrt_price_of(k, target);
    let res = swap_result_of(pool, s1, direction, cfg.dex_fee_bps, qty);
    &&& target < b128()
    &&& q192() * pow10(k) < b128() * b128() * target
    &&& (swap_feasible(pool, s1, direction) ==> swap_fits(pool, s1, direction, cfg.dex_fee_bps))
    &&& match direction {
        SwapDirection::Token0ToToken1 => res.amount_out > 0 ==> {
            let rev = price_for_pnl * res.amount_out / (WAD as int);
            &&& rev < b128()
            &&& rev <= i128::MAX
            &&& res.amount_in <= i128::MAX
            &&& rev - res.amount_in - gas >= i128::MIN
        },
        SwapDirection::Token1ToToken0 => res.amount_in > 0 ==> {
            let cost = ceil_div(price_for_pnl * res.amount_in, WAD as int);
            &&& cost < b128()
            &&& cost <= i128::MAX
            &&& res.amount_out <= i128::MAX
            &&& res.amount_out - cost - gas >= i128::MIN
        },
    }
}

/// Everything both directions need fits the evaluator's integer ranges.
pub open spec fn eval_fits(pool: PoolState, book: BookDepth, cfg: ArbitrageConfig, gas: u128) -> bool {
    let bid = book.bids@[0].0;
    let ask = book.asks@[0].0;
    &&& gas <= i128::MAX
    &&& dir_fits(
        pool,
        eff_bid(bid as int, cfg.cex_fee_bps as int),
        SwapDirection::Token0ToToken1,
        cfg,
        book.bids@[0].1,
        bid as int,
        gas,
    )
    &&& dir_fits(
        pool,
        eff_ask(ask as int, cfg.cex_fee_bps as int),
        SwapDirection::Token1ToToken0,
        cfg,
        book.asks@[0].1,
        eff_ask(ask as int, cfg.cex_fee_bps as int),
        gas,
    )
}

/// Build the direction-A summary line.
fn describe_a(out: u128, bid: u128, pnl: i128) -> (s: String)
    ensures
        s@ == desc_a(out as nat, bid as nat, pnl as int),
{
    proof {
        reveal_strlit("A: Buy ");
        reveal_strlit(" ETH on DEX -> Sell on CEX @ $");
        reveal_strlit(" | Earn $");
        reveal_strlit("-");
    }
    let mut s: String = String::new();
    s.append("A: Buy ");
    push_wad(&mut s, out, 6);
    s.append(" ETH on DEX -> Sell on CEX @ $");
    push_wad(&mut s, bid, 2);
    s.append(" | Earn $");
    if pnl < 0 {
        s.append("-");
        let mag: u128 = ((-(pnl + 1)) as u128) + 1;
        push_wad(&mut s, mag, 2);
    } else {
        push_wad(&mut s, pnl as u128, 2);
    }
    s
}

/// Build the direction-B summary line.
fn describe_b(amount: u128, ask: u128, pnl: i128) -> (s: String)
    ensures
        s@ == desc_b(amount as nat, ask as nat, pnl as int),
{
    proof {
        reveal_strlit("B: Buy ");
        reveal_strlit(" ETH on CEX -> Sell on DEX @ $");
        reveal_strlit(" | Earn $");
        reveal_strlit("-");
    }
    let mut s: String = String::new();
    s.append("B: Buy ");
    push_wad(&mut s, amount, 6);
    s.append(" ETH on CEX -> Sell on DEX @ $");
    push_wad(&mut s, ask, 2);
    s.append(" | Earn $");
    if pnl < 0 {
        s.append("-");
        let mag: u128 = ((-(pnl + 1)) as u128) + 1;
        push_wad(&mut s, mag, 2);
    } else {
        push_wad(&mut s, pnl as u128, 2);
    }
    s
}

/// Evaluate direction A (buy on the DEX, sell at the best CEX bid).
fn evaluate_direction_a(
    pool_state: &PoolState,
    book: &BookDepth,
    config: &ArbitrageConfig,
    gas_cost_usdc: u128,
) -> (r: Result<Option<ArbitrageOpportunity>, CoreError>)
    requires
        book.bids@.len() > 0,
        config.cex_fee_bps < 10000,
        swap_inputs_valid(*pool_state, 1u128, config.dex_fee_bps),
        eff_bid(book.bids@[0].0 as int, config.cex_fee_bps as int) > 0,
        gas_cost_usdc <= i128::MAX,
    ensures
        ({
            let fits = dir_fits(
                *pool_state,
                eff_bid(book.bids@[0].0 as int, config.cex_fee_bps as int),
                SwapDirection::Token0ToToken1,
                *config,
                book.bids@[0].1,
                book.bids@[0].0 as int,
                gas_cost_usdc,
            );
            &&& (r is Ok <==> fits)
            &&& (r is Err ==> r == Result::<Option<ArbitrageOpportunity>, CoreError>::Err(
                CoreError::Overflow,
            ))
            &&& (r is Ok ==> if a_reports(*pool_state, *book, *config, gas_cost_usdc) {
                r->Ok_0 is Some && opp_is_a(
                    r->Ok_0->0,
                    *pool_state,
                    *book,
                    *config,
                    gas_cost_usdc,
                )
            } else {
                r->Ok_0 is None
            })
        }),
{
    let (bid_price, bid_qty): (u128, u128) = book.bids[0];
    // Fold the CEX fee into the target: sell revenue is reduced, so the
    // price the pool must beat is lower.
    let m = mul_128(bid_price, (10000 - config.cex_fee_bps) as u128);
    let adjusted_bid_price: u128 = match div_384_256(widen_384(m), w256_of(10000)) {
        Some(q) => q,
        None => {
            proof {
                assert((bid_price as int) * (10000 - config.cex_fee_bps as int) < b128() * 10000)
                    by (nonlinear_arith)
                    requires
                        0 <= bid_price < b128(),
                        0 < 10000 - config.cex_fee_bps as int <= 10000,
                ;
                assert(false);
            }
            0
        },
    };
    let res: SwapResult = match calculate_swap_with_library(
        pool_state,
        adjusted_bid_price,
        SwapDirection::Token0ToToken1,
        config.dex_fee_bps,
        bid_qty,
    ) {
        Ok(res) => res,
        Err(_) => {
            return Err(CoreError::Overflow);
        },
    };
    proof {
        // The returned result is exactly the spec-level swap result for
        // the fee-lowered bid.
        let k = wad_exp(pool_state.token0_decimals, pool_state.token1_decimals) as nat;
        let s1 = sqrt_price_of(k, adjusted_bid_price as int);
        assert(swap_inputs_valid(*pool_state, adjusted_bid_price, config.dex_fee_bps));
        assert(res == swap_result_of(
            *pool_state,
            s1,
            SwapDirection::Token0ToToken1,
            config.dex_fee_bps,
            bid_qty,
        ));
    }
    if res.amount_out == 0 {
        return Ok(None);
    }
    // pnl = bid * amount_out - amount_in - gas; the CEX fee is already in
    // the solver's target and must not be subtracted again.
    let revenue: u128 = match div_384_256(
        widen_384(mul_128(bid_price, res.amount_out)),
        w256_of(WAD),
    ) {
        Some(q) => q,
        None => {
            return Err(CoreError::Overflow);
        },
    };
    if revenue > i128::MAX as u128 || res.amount_in > i128::MAX as u128 {
        return Err(CoreError::Overflow);
    }
    let partial: i128 = revenue as i128 - res.amount_in as i128;
    let pnl: i128 = match partial.checked_sub(gas_cost_usdc as i128) {
        Some(p) => p,
        None => {
            return Err(CoreError::Overflow);
        },
    };
    if pnl >= config.min_pnl_usdc {
        let description = describe_a(res.amount_out, bid_price, pnl);
        Ok(Some(ArbitrageOpportunity { direction: OppDirection::A, description, pnl }))
    } else {
        Ok(None)
    }
}

/// Evaluate direction B (buy at the best CEX ask, sell on the DEX).
fn evaluate_direction_b(
    pool_state: &PoolState,
    book: &BookDepth,
    config: &ArbitrageConfig,
    gas_cost_usdc: u128,
) -> (r: Result<Option<ArbitrageOpportunity>, CoreError>)
    requires
        book.asks@.len() > 0,
        config.cex_fee_bps < 10000,
        swap_inputs_valid(*pool_state, 1u128, config.dex_fee_bps),
        book.asks@[0].0 > 0,
        gas_cost_usdc <= i128::MAX,
    ensures
        ({
            let fits = dir_fits(
                *pool_state,
                eff_ask(book.asks@[0].0 as int, config.cex_fee_bps as int),
                SwapDirection::Token1ToToken0,
                *config,
                book.asks@[0].1,
                eff_ask(book.asks@[0].0 as int, config.cex_fee_bps as int),
                gas_cost_usdc,
            );
            &&& (r is Ok <==> fits)
            &&& (r is Err ==> r == Result::<Option<ArbitrageOpportunity>, CoreError>::Err(
                CoreError::Overflow,
            ))
            &&& (r is Ok ==> if b_reports(*pool_state, *book, *config, gas_cost_usdc) {
                r->Ok_0 is Some && opp_is_b(
                    r->Ok_0->0,
                    *pool_state,
                    *book,
                    *config,
                    gas_cost_usdc,
                )
            } else {
                r->Ok_0 is None
            })
        }),
{
    let (ask_price, ask_qty): (u128, u128) = book.asks[0];
    // Fold the CEX fee into the target: buying on the CEX costs more, so
    // the price the pool must beat is higher.
    let m = mul_128(ask_price, (10000 + config.cex_fee_bps) as u128);
    let adjusted_ask_price: u128 = match div_384_256_ceil(widen_384(m), w256_of(10000)) {
        Some(q) => {
            proof {
                crate::calc::lemma_ceil_div_unique(
                    ask_price as int * (10000 + config.cex_fee_bps as int),
                    10000,
                    q as int,
                );
            }
            q
        },
        None => {
            return Err(CoreError::Overflow);
        },
    };
    proof {
        // A positive ask gives a positive fee-raised ask.
        assert(eff_ask(ask_price as int, config.cex_fee_bps as int) >= 1) by {
            let x = ask_price as int * (10000 + config.cex_fee_bps as int);
            assert(x >= 10000) by (nonlinear_arith)
                requires
                    x == ask_price as int * (10000 + config.cex_fee_bps as int),
                    ask_price >= 1,
                    10000 + config.cex_fee_bps as int >= 10000,
            ;
            vstd::arithmetic::div_mod::lemma_div_is_ordered(10000, x + 10000 - 1, 10000);
            vstd::arithmetic::div_mod::lemma_div_by_multiple(1, 10000);
        }
    }
    let res: SwapResult = match calculate_swap_with_library(
        pool_state,
        adjusted_ask_price,
        SwapDirection::Token1ToToken0,
        config.dex_fee_bps,
        ask_qty,
    ) {
        Ok(res) => res,
        Err(_) => {
            return Err(CoreError::Overflow);
        },
    };
    proof {
        // The returned result is exactly the spec-level swap result for
        // the fee-raised ask.
        let k = wad_exp(pool_state.token0_decimals, pool_state.token1_decimals) as nat;
        let s1 = sqrt_price_of(k, adjusted_ask_price as int);
        assert(swap_inputs_valid(*pool_state, adjusted_ask_price, config.dex_fee_bps));
        assert(res == swap_result_of(
            *pool_state,
            s1,
            SwapDirection::Token1ToToken0,
            config.dex_fee_bps,
            ask_qty,
        ));
    }
    if res.amount_in == 0 {
        return Ok(None);
    }
    // pnl = amount_out - effective_ask * amount_in - gas, the cost rounded
    // up against the trader.
    let cost: u128 = match div_384_256_ceil(
        widen_384(mul_128(adjusted_ask_price, res.amount_in)),
        w256_of(WAD),
    ) {
        Some(c) => {
            proof {
                crate::calc::lemma_ceil_div_unique(
                    adjusted_ask_price as int * res.amount_in as int,
                    WAD as int,
                    c as int,
                );
            }
            c
        },
        None => {
            return Err(CoreError::Overflow);
        },
    };
    if cost > i128::MAX as u128 || res.amount_out > i128::MAX as u128 {
        return Err(CoreError::Overflow);
    }
    let partial: i128 = res.amount_out as i128 - cost as i128;
    let pnl: i128 = match partial.checked_sub(gas_cost_usdc as i128) {
        Some(p) => p,
        None => {
            return Err(CoreError::Overflow);
        },
    };
    if pnl >= config.min_pnl_usdc {
        let description = describe_b(res.amount_in, ask_price, pnl);
        Ok(Some(ArbitrageOpportunity { direction: OppDirection::B, description, pnl }))
    } else {
        Ok(None)
    }
}

/// Evaluate both arbitrage directions for one tick.
///
/// An empty book side yields an empty list (no quote is not an error); a
/// malformed snapshot or configuration fails with `InvalidInput`; amounts
/// beyond the evaluator's integer ranges fail with `Overflow`, so a bad
/// tick is skipped rather than mis-reported. Otherwise the list holds the
/// direction-A opportunity (if it clears the floor) followed by the
/// direction-B one, exactly as the per-direction profit formulas dictate.
pub fn evaluate_opportunities(
    pool_state: &PoolState,
    book: &BookDepth,
    config: &ArbitrageConfig,
    gas_cost_usdc: u128,
) -> (r: Result<Vec<ArbitrageOpportunity>, CoreError>)
    ensures
        ({
            let empty = book.bids@.len() == 0 || book.asks@.len() == 0;
            &&& empty ==> (r is Ok && r->Ok_0@.len() == 0)
            &&& !empty ==> {
                &&& (r == Result::<Vec<ArbitrageOpportunity>, CoreError>::Err(
                    CoreError::InvalidInput,
                ) <==> !eval_valid(*pool_state, *book, *config))
                &&& (eval_valid(*pool_state, *book, *config) && eval_fits(
                    *pool_state,
                    *book,
                    *config,
                    gas_cost_usdc,
                )) ==> (r is Ok && opps_match(
                    r->Ok_0@,
                    *pool_state,
                    *book,
                    *config,
                    gas_cost_usdc,
                ))
                &&& (r == Result::<Vec<ArbitrageOpportunity>, CoreError>::Err(
                    CoreError::Overflow,
                )) ==> (eval_valid(*pool_state, *book, *config) && !eval_fits(
                    *pool_state,
                    *book,
                    *config,
                    gas_cost_usdc,
                ))
                &&& (r is Ok ==> (eval_valid(*pool_state, *book, *config) && eval_fits(
                    *pool_state,
                    *book,
                    *config,
                    gas_cost_usdc,
                )))
            }
        }),
{
    let mut opportunities: Vec<ArbitrageOpportunity> = Vec::new();
    if book.bids.len() == 0 || book.asks.len() == 0 {
        return Ok(opportunities);
    }
    // Validate the snapshot and configuration up front: a malformed tick
    // is skipped loudly, never patched over.
    if config.cex_fee_bps >= 10000 || config.dex_fee_bps >= 10000
        || pool_state.sqrt_price_x96 == 0 || pool_state.liquidity == 0
        || pool_state.token0_decimals > 18 || pool_state.token1_decimals > 18 {
        return Err(CoreError::InvalidInput);
    }
    let (bid_price, _bid_qty): (u128, u128) = book.bids[0];
    let (ask_price, _ask_qty): (u128, u128) = book.asks[0];
    let m = mul_128(bid_price, (10000 - config.cex_fee_bps) as u128);
    let eb: u128 = match div_384_256(widen_384(m), w256_of(10000)) {
        Some(q) => q,
        None => {
            proof {
                assert((bid_price as int) * (10000 - config.cex_fee_bps as int) < b128() * 10000)
                    by (nonlinear_arith)
                    requires
                        0 <= bid_price < b128(),
                        0 < 10000 - config.cex_fee_bps as int <= 10000,
                ;
                assert(false);
            }
            0
        },
    };
    if eb == 0 {
        return Err(CoreError::InvalidInput);
    }
    if ask_price == 0 {
        proof {
            assert(0int * (10000 + config.cex_fee_bps as int) == 0) by (nonlinear_arith);
            assert(eff_ask(0int, config.cex_fee_bps as int) == 0);
        }
        return Err(CoreError::InvalidInput);
    }
    proof {
        // A positive ask gives a positive fee-raised ask.
        assert(eff_ask(ask_price as int, config.cex_fee_bps as int) >= 1) by {
            let x = ask_price as int * (10000 + config.cex_fee_bps as int);
            assert(x >= 10000) by (nonlinear_arith)
                requires
                    x == ask_price as int * (10000 + config.cex_fee_bps as int),
                    ask_price >= 1,
                    10000 + config.cex_fee_bps as int >= 10000,
            ;
            vstd::arithmetic::div_mod::lemma_div_is_ordered(10000, x + 10000 - 1, 10000);
            vstd::arithmetic::div_mod::lemma_div_by_multiple(1, 10000);
        }
    }
    if gas_cost_usdc > i128::MAX as u128 {
        return Err(CoreError::Overflow);
    }
    match evaluate_direction_a(pool_state, book, config, gas_cost_usdc) {
        Ok(Some(opp)) => {
            opportunities.push(opp);
        },
        Ok(None) => {},
        Err(e) => {
            return Err(e);
        },
    }
    match evaluate_direction_b(pool_state, book, config, gas_cost_usdc) {
        Ok(Some(opp)) => {
            opportunities.push(opp);
        },
        Ok(None) => {},
        Err(e) => {
            return Err(e);
        },
    }
    Ok(opportunities)
}

/// Gas cost in wad quote units:
/// `floor(gas_gwei * units * multiplier * price / 10^45)` — the wad form
/// of `gwei * 1e-9 * units * multiplier * price`, with the gwei rate, the
/// multiplier and the quote-per-base price all wad-scaled.
pub fn calculate_gas_cost_usdc(
    gas_gwei: u128,
    gas_units: u64,
    gas_multiplier: u128,
    price_usdc_per_eth: u128,
) -> (r: Result<u128, CoreError>)
    ensures
        ({
            let exact = gas_gwei * gas_units * gas_multiplier * price_usdc_per_eth
                / 1000000000000000000000000000000000000000000000int;
            match r {
                Ok(c) => gas_gwei * gas_units < b128() && c == exact,
                Err(e) => e == CoreError::Overflow && (gas_gwei * gas_units >= b128() || exact
                    >= b128()),
            }
        }),
{
    let m1: u128 = match gas_gwei.checked_mul(gas_units as u128) {
        Some(v) => v,
        None => {
            return Err(CoreError::Overflow);
        },
    };
    let w: Wide256 = mul_128(m1, gas_multiplier);
    let w3: Wide384 = crate::wide::mul_256_128(w, price_usdc_per_eth);
    // 10^45 = 10^38 * 10^7, as an exact two-limb divisor.
    let d: Wide256 = mul_128(100000000000000000000000000000000000000u128, 10000000u128);
    proof {
        assert(w256(d) == 1000000000000000000000000000000000000000000000int);
        assert(w384(w3) == gas_gwei * gas_units * gas_multiplier * price_usdc_per_eth)
            by (nonlinear_arith)
            requires
                w384(w3) == w256(w) * price_usdc_per_eth,
                w256(w) == m1 * gas_multiplier,
                m1 == gas_gwei * gas_units,
        ;
    }
    match div_384_256(w3, d) {
        Some(q) => Ok(q),
        None => {
            proof {
                vstd::arithmetic::div_mod::lemma_div_is_ordered(
                    b128() * w256(d),
                    w384(w3),
                    w256(d),
                );
                vstd::arithmetic::div_mod::lemma_div_by_multiple(b128(), w256(d));
            }
            Err(CoreError::Overflow)
        },
    }
}

} // verus!
