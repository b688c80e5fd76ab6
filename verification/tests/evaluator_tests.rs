use arbitrage_detector::errors::CoreError;
use arbitrage_detector::evaluator::{
    calculate_gas_cost_usdc, evaluate_opportunities, ArbitrageConfig, OppDirection,
};
use arbitrage_detector::models::BookDepth;
use arbitrage_detector::price::calculate_sqrt_price_with_precision_per_eth;
use arbitrage_detector::state::PoolState;

const WAD: u128 = 1_000_000_000_000_000_000;

fn wad(x: u64) -> u128 {
    x as u128 * WAD
}

fn make_pool(price_usdc_per_eth: u128, liquidity: u128) -> PoolState {
    let token0_decimals = 6;
    let token1_decimals = 18;
    let sqrt_q96 = calculate_sqrt_price_with_precision_per_eth(
        price_usdc_per_eth,
        token0_decimals,
        token1_decimals,
    )
    .unwrap();
    PoolState::new(
        sqrt_q96,
        liquidity,
        0,
        token0_decimals,
        token1_decimals,
        None,
        None,
        Vec::new(),
        Vec::new(),
    )
}

fn book(bids: Vec<(u128, u128)>, asks: Vec<(u128, u128)>) -> BookDepth {
    BookDepth { timestamp: 0, bids, asks }
}

#[test]
fn gas_cost_basic_calculation() {
    let cost = calculate_gas_cost_usdc(wad(30), 300_000, 1_200_000_000_000_000_000, wad(4000))
        .unwrap();
    assert!(cost > 0);
    // 30 gwei * 300000 units * 1.2 * 4000 quote/base * 1e-9 = 43.2
    assert_eq!(cost, 43_200_000_000_000_000_000);
}

#[test]
fn gas_cost_formula_matches_expected_math() {
    let got = calculate_gas_cost_usdc(wad(35), 250_000, 1_300_000_000_000_000_000, wad(3800))
        .unwrap();
    // 35e-9 * 250000 * 1.3 * 3800 = 43.225, exactly representable in wad.
    let expected: u128 = 43_225_000_000_000_000_000;
    assert_eq!(got, expected, "{} vs {}", got, expected);
}

#[test]
fn direction_a_smoke_profitability() {
    let pool = make_pool(wad(4200), 1_800_000_000_000_000_000);
    let b = book(vec![(wad(4225), wad(5))], vec![(wad(4230), wad(5))]);
    let cfg = ArbitrageConfig { min_pnl_usdc: 0, dex_fee_bps: 30, cex_fee_bps: 10 };
    let opps = evaluate_opportunities(&pool, &b, &cfg, 0).unwrap();
    assert!(!opps.is_empty());
}

#[test]
fn empty_order_book_returns_no_opportunities() {
    let pool = make_pool(wad(4200), 1_800_000_000_000_000_000);
    let empty_bids = book(Vec::new(), vec![(wad(4210), wad(1))]);
    let empty_asks = book(vec![(wad(4210), wad(1))], Vec::new());
    let cfg = ArbitrageConfig { min_pnl_usdc: 0, dex_fee_bps: 30, cex_fee_bps: 10 };

    let opps_a = evaluate_opportunities(&pool, &empty_bids, &cfg, 0).unwrap();
    let opps_b = evaluate_opportunities(&pool, &empty_asks, &cfg, 0).unwrap();

    assert!(opps_a.is_empty());
    assert!(opps_b.is_empty());
}

#[test]
fn direction_b_smoke_profitability() {
    // DEX price higher than CEX ask makes the B direction attractive.
    // With the CEX fee folded into the target (and only the CEX fee), a
    // 27-point spread against a 30 bps LP fee is not enough: the solve
    // runs to the effective ask and the averaged fill eats the margin.
    let pool = make_pool(wad(4250), 1_800_000_000_000_000_000);
    let b = book(vec![(wad(4240), wad(5))], vec![(wad(4223), wad(5))]);
    let cfg = ArbitrageConfig { min_pnl_usdc: 0, dex_fee_bps: 30, cex_fee_bps: 10 };
    let opps = evaluate_opportunities(&pool, &b, &cfg, 0).unwrap();
    assert!(!opps.iter().any(|o| o.direction == OppDirection::B));
}

#[test]
fn direction_b_profitable_on_a_wide_spread() {
    // A spread wide enough to clear both fees does surface direction B.
    let pool = make_pool(wad(4250), 1_800_000_000_000_000_000);
    let b = book(vec![(wad(4240), wad(5))], vec![(wad(4200), wad(5))]);
    let cfg = ArbitrageConfig { min_pnl_usdc: 0, dex_fee_bps: 30, cex_fee_bps: 10 };
    let opps = evaluate_opportunities(&pool, &b, &cfg, 0).unwrap();
    assert!(opps.iter().any(|o| o.direction == OppDirection::B && o.pnl > 0));
}

#[test]
fn min_pnl_threshold_filters_out_opportunities() {
    let pool = make_pool(wad(4200), 1_800_000_000_000_000_000);
    let b = book(vec![(wad(4225), wad(5))], vec![(wad(4230), wad(5))]);
    // A profit floor of one quote unit is far above the capped trade's
    // margin, so nothing is reported.
    let cfg = ArbitrageConfig { min_pnl_usdc: WAD as i128, dex_fee_bps: 30, cex_fee_bps: 10 };
    let opps = evaluate_opportunities(&pool, &b, &cfg, 0).unwrap();
    assert!(opps.is_empty());

    // At a floor of 0.001 the direction-A margin clears it.
    let cfg = ArbitrageConfig {
        min_pnl_usdc: (WAD / 1000) as i128,
        dex_fee_bps: 30,
        cex_fee_bps: 10,
    };
    let opps = evaluate_opportunities(&pool, &b, &cfg, 0).unwrap();
    assert!(!opps.is_empty());
}

#[test]
fn gas_cost_can_turn_a_profitable_trade_unprofitable() {
    let pool = make_pool(wad(4200), 1_800_000_000_000_000_000);
    let b = book(vec![(wad(4225), wad(5))], vec![(wad(4230), wad(5))]);
    let cfg = ArbitrageConfig { min_pnl_usdc: 0, dex_fee_bps: 30, cex_fee_bps: 10 };

    // With zero gas, expect at least one opportunity.
    let opps_no_gas = evaluate_opportunities(&pool, &b, &cfg, 0).unwrap();
    assert!(!opps_no_gas.is_empty());

    // With large gas, opportunities should disappear.
    let opps_high_gas = evaluate_opportunities(&pool, &b, &cfg, 3 * WAD / 10).unwrap();
    assert!(opps_high_gas.is_empty());
}

#[test]
fn gas_cost_of_fifty_removes_the_end_to_end_example() {
    // The end-to-end example: pool at 4200 with 1.8e18 liquidity, bid
    // (4225, 5), ask (4230, 5), 30 bps DEX fee, 10 bps CEX fee, zero
    // floor. Direction A is profitable at zero gas and vanishes at 50.
    let pool = make_pool(wad(4200), 1_800_000_000_000_000_000);
    let b = book(vec![(wad(4225), wad(5))], vec![(wad(4230), wad(5))]);
    let cfg = ArbitrageConfig { min_pnl_usdc: 0, dex_fee_bps: 30, cex_fee_bps: 10 };

    let opps = evaluate_opportunities(&pool, &b, &cfg, 0).unwrap();
    assert!(opps.iter().any(|o| o.direction == OppDirection::A && o.pnl > 0));

    let opps_gassy = evaluate_opportunities(&pool, &b, &cfg, wad(50)).unwrap();
    assert!(opps_gassy.is_empty());
}

#[test]
fn description_contains_expected_phrasing_and_values() {
    let pool = make_pool(wad(4200), 1_800_000_000_000_000_000);
    // Make B unlikely so the focus is on A.
    let b = book(vec![(wad(4225), wad(5))], vec![(wad(4300), wad(5))]);
    let cfg = ArbitrageConfig { min_pnl_usdc: 0, dex_fee_bps: 30, cex_fee_bps: 10 };
    let opps = evaluate_opportunities(&pool, &b, &cfg, 0).unwrap();
    if let Some(opp) = opps.iter().find(|o| o.direction == OppDirection::A) {
        assert!(opp.description.contains("A:"));
        assert!(opp.description.contains("Earn $"));
        assert!(opp.pnl >= 0);
    } else {
        // If A did not appear, ensure at least B has the expected format.
        let opp_b = opps
            .iter()
            .find(|o| o.direction == OppDirection::B)
            .expect("expected at least one opportunity");
        assert!(opp_b.description.contains("B:"));
        assert!(opp_b.description.contains("Earn $"));
    }
}

#[test]
fn high_cex_fee_can_eliminate_opportunities() {
    let pool = make_pool(wad(4200), 1_800_000_000_000_000_000);
    // Prices that would normally allow A and B, with a 10% CEX fee.
    let b = book(vec![(wad(4250), wad(5))], vec![(wad(4150), wad(5))]);
    let cfg = ArbitrageConfig { min_pnl_usdc: 0, dex_fee_bps: 30, cex_fee_bps: 1000 };
    let opps = evaluate_opportunities(&pool, &b, &cfg, 0).unwrap();
    assert!(opps.is_empty());
}

#[test]
fn exact_pnl_on_a_power_of_two_pool() {
    // An 8/8-decimal pool at price 1.0 (sqrt-price exactly 2^96), bid at
    // 4.0 with no fees: the solve takes 1.0 quote in for 0.5 base out,
    // revenue 4.0 * 0.5 = 2.0, so the profit is exactly 1.0.
    let q96: u128 = 79228162514264337593543950336;
    let pool = PoolState::new(q96, 100_000_000, 0, 8, 8, None, None, Vec::new(), Vec::new());
    let b = book(vec![(wad(4), wad(1000))], vec![(wad(1000), wad(1))]);
    let cfg = ArbitrageConfig { min_pnl_usdc: 0, dex_fee_bps: 0, cex_fee_bps: 0 };
    let opps = evaluate_opportunities(&pool, &b, &cfg, 0).unwrap();
    assert_eq!(opps.len(), 1);
    assert_eq!(opps[0].direction, OppDirection::A);
    assert_eq!(opps[0].pnl, WAD as i128);
    assert!(opps[0].description.contains("A: Buy 0.500000 ETH"));
    assert!(opps[0].description.contains("Earn $1.00"));
}

#[test]
fn evaluator_rejects_bad_fee_configuration() {
    let pool = make_pool(wad(4200), 1_800_000_000_000_000_000);
    let b = book(vec![(wad(4225), wad(5))], vec![(wad(4230), wad(5))]);
    let cfg = ArbitrageConfig { min_pnl_usdc: 0, dex_fee_bps: 30, cex_fee_bps: 10_000 };
    assert!(matches!(
        evaluate_opportunities(&pool, &b, &cfg, 0),
        Err(CoreError::InvalidInput)
    ));
    let cfg = ArbitrageConfig { min_pnl_usdc: 0, dex_fee_bps: 10_000, cex_fee_bps: 10 };
    assert!(matches!(
        evaluate_opportunities(&pool, &b, &cfg, 0),
        Err(CoreError::InvalidInput)
    ));
}

#[test]
fn negative_profit_is_reported_when_the_floor_allows_it() {
    // Same exact power-of-two scenario, but gas of 2.0 turns the 1.0
    // profit into -1.0; a floor of -3.0 still surfaces it, signed.
    let q96: u128 = 79228162514264337593543950336;
    let pool = PoolState::new(q96, 100_000_000, 0, 8, 8, None, None, Vec::new(), Vec::new());
    let b = book(vec![(wad(4), wad(1000))], vec![(wad(1000), wad(1))]);
    let cfg = ArbitrageConfig { min_pnl_usdc: -3 * WAD as i128, dex_fee_bps: 0, cex_fee_bps: 0 };
    let opps = evaluate_opportunities(&pool, &b, &cfg, wad(2)).unwrap();
    assert_eq!(opps.len(), 1);
    assert_eq!(opps[0].pnl, -(WAD as i128));
    assert!(opps[0].description.contains("Earn $-1.00"));
}
