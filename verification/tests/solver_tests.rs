use arbitrage_detector::calc::{
    calculate_swap_multi_segment, calculate_swap_with_library, realized_avg_price,
};
use arbitrage_detector::errors::CoreError;
use arbitrage_detector::models::{SwapDirection, SwapResult};
use arbitrage_detector::price::calculate_sqrt_price_with_precision_per_eth;
use arbitrage_detector::state::{PoolState, PriceSegment};

const WAD: u128 = 1_000_000_000_000_000_000;
const Q96: u128 = 79228162514264337593543950336;

fn wad(x: u64) -> u128 {
    x as u128 * WAD
}

fn make_pool(price_usdc_per_eth: u128, liquidity: u128) -> PoolState {
    let token0_decimals = 6;
    let token1_decimals = 18;
    let sqrt_price_x96 = calculate_sqrt_price_with_precision_per_eth(
        price_usdc_per_eth,
        token0_decimals,
        token1_decimals,
    )
    .unwrap();
    PoolState::new(
        sqrt_price_x96,
        liquidity,
        0,
        token0_decimals,
        token1_decimals,
        None,
        None,
        Vec::new(),
        Vec::new(),
    )
}

#[test]
fn direction_a_profitable_when_dex_below_cex_no_fee() {
    let pool = make_pool(wad(4223), 1_800_000_000_000_000_000);
    let bid_price = wad(4225); // CEX bid above DEX
    let res = calculate_swap_with_library(
        &pool,
        bid_price,
        SwapDirection::Token0ToToken1,
        0,
        wad(10_000),
    )
    .unwrap();
    assert!(res.amount_in > 0);
    assert!(res.amount_out > 0);
}

#[test]
fn direction_b_profitable_when_dex_above_cex_no_fee() {
    let pool = make_pool(wad(4225), 1_800_000_000_000_000_000);
    let ask_price = wad(4223); // CEX ask below DEX
    let res = calculate_swap_with_library(
        &pool,
        ask_price,
        SwapDirection::Token1ToToken0,
        0,
        wad(5),
    )
    .unwrap();
    assert!(res.amount_in > 0);
    assert!(res.amount_out > 0);
}

#[test]
fn direction_a_profitable_when_dex_below_cex_with_fee() {
    let pool = make_pool(wad(4000), 1_800_000_000_000_000_000);
    let bid_price = wad(4250); // CEX bid above DEX
    let res_low_fee = calculate_swap_with_library(
        &pool,
        bid_price,
        SwapDirection::Token0ToToken1,
        588,
        wad(10_000),
    )
    .unwrap();
    assert!(res_low_fee.amount_in > 0);
    assert!(res_low_fee.amount_out > 0);

    // The LP fee inflates the required input but never flips feasibility:
    // the target price stays where the caller set it. Both solves cap at
    // the same input budget here, so the higher fee shows up as strictly
    // less output for the same spend.
    let res_high_fee = calculate_swap_with_library(
        &pool,
        bid_price,
        SwapDirection::Token0ToToken1,
        589,
        wad(10_000),
    )
    .unwrap();
    assert!(res_high_fee.amount_in > 0);
    assert!(res_high_fee.amount_out > 0);
    assert!(res_low_fee.capped_by_max && res_high_fee.capped_by_max);
    assert_eq!(res_high_fee.amount_in, res_low_fee.amount_in);
    assert!(res_high_fee.amount_out < res_low_fee.amount_out);
}

#[test]
fn caps_max_input_and_scales_output() {
    let pool = make_pool(wad(4200), 1_800_000_000_000_000_000);
    let price = wad(4210);
    let res = calculate_swap_with_library(
        &pool,
        price,
        SwapDirection::Token0ToToken1,
        0,
        WAD / 2,
    )
    .unwrap();
    assert!(res.amount_in <= WAD / 2);
}

#[test]
fn capped_swap_reports_cap_and_proportional_output() {
    let pool = make_pool(wad(4200), 1_800_000_000_000_000_000);
    let price = wad(4210);
    let uncapped = calculate_swap_with_library(
        &pool,
        price,
        SwapDirection::Token0ToToken1,
        30,
        u128::MAX,
    )
    .unwrap();
    assert!(!uncapped.capped_by_max);
    assert!(uncapped.amount_in > WAD / 2);

    let capped = calculate_swap_with_library(
        &pool,
        price,
        SwapDirection::Token0ToToken1,
        30,
        WAD / 2,
    )
    .unwrap();
    assert!(capped.capped_by_max);
    assert_eq!(capped.amount_in, WAD / 2);
    // Output scales down proportionally, rounded against the trader.
    let expected =
        (uncapped.amount_out * (WAD / 2)) / uncapped.amount_in;
    assert_eq!(capped.amount_out, expected);
}

#[test]
fn infeasible_direction_returns_zero_result() {
    let pool = make_pool(wad(4200), 1_800_000_000_000_000_000);
    // Token0-in pushes the price up; a target below the pool price is on
    // the wrong side and yields the zero result, not an error.
    let res = calculate_swap_with_library(
        &pool,
        wad(4100),
        SwapDirection::Token0ToToken1,
        30,
        wad(10_000),
    )
    .unwrap();
    assert_eq!(res.amount_in, 0);
    assert_eq!(res.amount_out, 0);
    assert!(!res.hit_boundary);
    assert!(!res.capped_by_max);
    // And symmetrically for token1-in.
    let res = calculate_swap_with_library(
        &pool,
        wad(4300),
        SwapDirection::Token1ToToken0,
        30,
        wad(10_000),
    )
    .unwrap();
    assert_eq!(res.amount_in, 0);
    assert_eq!(res.amount_out, 0);
}

#[test]
fn exact_amounts_on_a_power_of_two_pool() {
    // An 8/8-decimal pool at price 1.0 has sqrt-price exactly 2^96; the
    // target price 4.0 has sqrt-price exactly 2^95. With liquidity 10^8
    // the curve deltas are exact: one token0 in, half a token1 out.
    let pool = PoolState::new(Q96, 100_000_000, 0, 8, 8, None, None, Vec::new(), Vec::new());
    let res = calculate_swap_with_library(
        &pool,
        wad(4),
        SwapDirection::Token0ToToken1,
        0,
        wad(1_000_000),
    )
    .unwrap();
    assert_eq!(res.amount_in, WAD);
    assert_eq!(res.amount_out, WAD / 2);

    // The mirror move: price 0.25 has sqrt-price exactly 2^97; one token1
    // in, half a token0 out.
    let res = calculate_swap_with_library(
        &pool,
        WAD / 4,
        SwapDirection::Token1ToToken0,
        0,
        wad(1_000_000),
    )
    .unwrap();
    assert_eq!(res.amount_in, WAD);
    assert_eq!(res.amount_out, WAD / 2);
}

#[test]
fn fee_division_rounds_up_exactly() {
    // Same power-of-two pool; with a 50% fee (5000 bps) the one-token
    // input doubles exactly.
    let pool = PoolState::new(Q96, 100_000_000, 0, 8, 8, None, None, Vec::new(), Vec::new());
    let res = calculate_swap_with_library(
        &pool,
        wad(4),
        SwapDirection::Token0ToToken1,
        5000,
        wad(1_000_000),
    )
    .unwrap();
    assert_eq!(res.amount_in, 2 * WAD);
    assert_eq!(res.amount_out, WAD / 2);
}

#[test]
fn solver_rejects_malformed_inputs() {
    let pool = make_pool(wad(4200), 1_800_000_000_000_000_000);
    // Fee at or above 100%.
    assert_eq!(
        calculate_swap_with_library(&pool, wad(4210), SwapDirection::Token0ToToken1, 10_000, WAD),
        Err(CoreError::InvalidInput)
    );
    // Zero target price.
    assert_eq!(
        calculate_swap_with_library(&pool, 0, SwapDirection::Token0ToToken1, 30, WAD),
        Err(CoreError::InvalidInput)
    );
    // Zero liquidity.
    let dead = make_pool(wad(4200), 0);
    assert_eq!(
        calculate_swap_with_library(&dead, wad(4210), SwapDirection::Token0ToToken1, 30, WAD),
        Err(CoreError::InvalidInput)
    );
    // Zero sqrt-price.
    let broken = PoolState::new(0, 1, 0, 6, 18, None, None, Vec::new(), Vec::new());
    assert_eq!(
        calculate_swap_with_library(&broken, wad(4210), SwapDirection::Token0ToToken1, 30, WAD),
        Err(CoreError::InvalidInput)
    );
}

#[test]
fn sqrt_overflow_is_reported_as_overflow() {
    // A price so small its sqrt-price needs 128 bits or more.
    let pool = make_pool(wad(4200), 1_800_000_000_000_000_000);
    let tiny: u128 = 1; // 1e-18 in wad form
    assert_eq!(
        calculate_swap_with_library(&pool, tiny, SwapDirection::Token0ToToken1, 30, WAD),
        Err(CoreError::Overflow)
    );
}

fn two_segment_pool(
    liquidity_near: u128,
    liquidity_far: u128,
    boundary_sqrt: u128,
    far_sqrt: u128,
    current_sqrt: u128,
) -> PoolState {
    PoolState::new(
        current_sqrt,
        liquidity_near,
        0,
        6,
        18,
        Some(boundary_sqrt),
        Some(current_sqrt),
        vec![PriceSegment {
            start_sqrt_price_x96: boundary_sqrt,
            end_sqrt_price_x96: far_sqrt,
            liquidity: liquidity_far,
        }],
        Vec::new(),
    )
}

#[test]
fn multi_segment_accumulates_piecewise_single_segment_amounts() {
    // Two constant-liquidity ranges; the multi-segment result must equal
    // the single-segment formula applied to each sub-range, summed.
    let l1: u128 = 1_800_000_000_000_000_000;
    let l2: u128 = 900_000_000_000_000_000;
    let boundary_price = wad(4300);
    let target_price = wad(4400);
    let s0 = calculate_sqrt_price_with_precision_per_eth(wad(4200), 6, 18).unwrap();
    let m = calculate_sqrt_price_with_precision_per_eth(boundary_price, 6, 18).unwrap();
    let far = calculate_sqrt_price_with_precision_per_eth(wad(5000), 6, 18).unwrap();

    let pool = two_segment_pool(l1, l2, m, far, s0);
    let multi = calculate_swap_multi_segment(
        &pool,
        target_price,
        SwapDirection::Token0ToToken1,
        30,
        wad(100_000_000),
    )
    .unwrap();
    assert!(!multi.hit_boundary);
    assert!(!multi.capped_by_max);

    // Piecewise: current range to the boundary at l1, then a fresh pool
    // standing at the boundary with l2 to the target.
    let pool_near = make_pool(wad(4200), l1);
    let leg1 = calculate_swap_with_library(
        &pool_near,
        boundary_price,
        SwapDirection::Token0ToToken1,
        30,
        wad(100_000_000),
    )
    .unwrap();
    let pool_far = PoolState::new(m, l2, 0, 6, 18, None, None, Vec::new(), Vec::new());
    let leg2 = calculate_swap_with_library(
        &pool_far,
        target_price,
        SwapDirection::Token0ToToken1,
        30,
        wad(100_000_000),
    )
    .unwrap();
    assert!(leg1.amount_in > 0 && leg2.amount_in > 0);
    assert_eq!(multi.amount_in, leg1.amount_in + leg2.amount_in);
    assert_eq!(multi.amount_out, leg1.amount_out + leg2.amount_out);
}

#[test]
fn multi_segment_sets_hit_boundary_when_segments_run_out() {
    let l1: u128 = 1_800_000_000_000_000_000;
    let l2: u128 = 900_000_000_000_000_000;
    let s0 = calculate_sqrt_price_with_precision_per_eth(wad(4200), 6, 18).unwrap();
    let m = calculate_sqrt_price_with_precision_per_eth(wad(4300), 6, 18).unwrap();
    let far = calculate_sqrt_price_with_precision_per_eth(wad(4400), 6, 18).unwrap();

    let pool = two_segment_pool(l1, l2, m, far, s0);
    // The target lies beyond the last segment: the move is truncated.
    let res = calculate_swap_multi_segment(
        &pool,
        wad(5000),
        SwapDirection::Token0ToToken1,
        30,
        wad(100_000_000),
    )
    .unwrap();
    assert!(res.hit_boundary);
    assert!(!res.capped_by_max);
    assert!(res.amount_in > 0);
}

#[test]
fn multi_segment_honors_the_input_cap() {
    let l1: u128 = 1_800_000_000_000_000_000;
    let l2: u128 = 900_000_000_000_000_000;
    let s0 = calculate_sqrt_price_with_precision_per_eth(wad(4200), 6, 18).unwrap();
    let m = calculate_sqrt_price_with_precision_per_eth(wad(4300), 6, 18).unwrap();
    let far = calculate_sqrt_price_with_precision_per_eth(wad(5000), 6, 18).unwrap();

    let pool = two_segment_pool(l1, l2, m, far, s0);
    let cap = wad(1000);
    let res = calculate_swap_multi_segment(
        &pool,
        wad(4400),
        SwapDirection::Token0ToToken1,
        30,
        cap,
    )
    .unwrap();
    assert!(res.capped_by_max);
    assert!(!res.hit_boundary);
    assert_eq!(res.amount_in, cap);
}

#[test]
fn multi_segment_rejects_a_broken_segment_chain() {
    let s0 = calculate_sqrt_price_with_precision_per_eth(wad(4200), 6, 18).unwrap();
    let m = calculate_sqrt_price_with_precision_per_eth(wad(4300), 6, 18).unwrap();
    let far = calculate_sqrt_price_with_precision_per_eth(wad(5000), 6, 18).unwrap();
    // Segment chain does not start at the declared lower bound.
    let pool = PoolState::new(
        s0,
        1_800_000_000_000_000_000,
        0,
        6,
        18,
        Some(m),
        Some(s0),
        vec![PriceSegment {
            start_sqrt_price_x96: m - 1,
            end_sqrt_price_x96: far,
            liquidity: 1,
        }],
        Vec::new(),
    );
    assert_eq!(
        calculate_swap_multi_segment(&pool, wad(4400), SwapDirection::Token0ToToken1, 30, WAD),
        Err(CoreError::InvalidInput)
    );
}

#[test]
fn realized_average_price_comes_from_the_accumulated_amounts() {
    // One quote unit in for half a base unit out: average price 2.0.
    let res = SwapResult {
        amount_in: WAD,
        amount_out: WAD / 2,
        hit_boundary: false,
        capped_by_max: false,
    };
    assert_eq!(realized_avg_price(&res, SwapDirection::Token0ToToken1), 2 * WAD);
    // The mirror direction: one base unit in, half a quote unit out.
    assert_eq!(realized_avg_price(&res, SwapDirection::Token1ToToken0), WAD / 2);
    // An empty fill has no price.
    let empty = SwapResult { amount_in: 0, amount_out: 0, hit_boundary: false, capped_by_max: false };
    assert_eq!(realized_avg_price(&empty, SwapDirection::Token0ToToken1), 0);
}
