use arbitrage_detector::price::{
    calculate_human_price_from_sqrt_x96, calculate_sqrt_price_with_precision_per_eth,
    price_usdc_per_eth,
};
use arbitrage_detector::state::{approx_sqrt_price_x96_at_tick, q96_to_real, real_to_q96,
    reciprocal};

const WAD: u128 = 1_000_000_000_000_000_000;
const Q96: u128 = 79228162514264337593543950336;

fn wad(x: u64) -> u128 {
    x as u128 * WAD
}

#[test]
fn test_calculate_sqrt_price_with_precision() {
    let price = wad(9);
    let sqrt_price = calculate_sqrt_price_with_precision_per_eth(price, 6, 18).unwrap();
    let price_usdc = calculate_human_price_from_sqrt_x96(sqrt_price, 6, 18).unwrap();
    // Absolute tolerance of 1e-10, in wad form.
    let tolerance: u128 = 100_000_000;
    let diff = if price_usdc > price { price_usdc - price } else { price - price_usdc };
    assert!(
        diff < tolerance,
        "Expected price {} to be within {} of {}",
        price_usdc,
        tolerance,
        price
    );
}

#[test]
fn round_trip_across_decimal_pairs_and_magnitudes() {
    // Prices from 1e-6 to 1e9 (wad mantissas 1e12 .. 1e27), three decimal
    // layouts; the round trip must stay within 1e-9 relative error.
    let pairs: [(u8, u8); 3] = [(6, 18), (18, 6), (8, 8)];
    let mut price: u128 = 1_000_000_000_000; // 1e-6 in wad form
    while price <= 1_000_000_000_000_000_000_000_000_000 {
        for (d0, d1) in pairs {
            let s = calculate_sqrt_price_with_precision_per_eth(price, d0, d1).unwrap();
            let back = calculate_human_price_from_sqrt_x96(s, d0, d1).unwrap();
            let diff = if back > price { back - price } else { price - back };
            assert!(
                diff <= price / 1_000_000_000,
                "round trip {} -> {} ({}, {})",
                price,
                back,
                d0,
                d1
            );
        }
        price *= 1000;
    }
}

#[test]
fn sqrt_price_conversion_rejects_bad_inputs() {
    assert!(calculate_sqrt_price_with_precision_per_eth(0, 6, 18).is_err());
    // Token decimal difference outside the supported band.
    assert!(calculate_sqrt_price_with_precision_per_eth(wad(1), 38, 6).is_err());
}

#[test]
fn price_zero_when_sqrt_is_zero() {
    assert_eq!(price_usdc_per_eth(0), 0);
}

#[test]
fn price_increases_with_sqrt() {
    let small: u128 = 1_000_000_000_000_000;
    let large: u128 = 10_000_000_000_000_000;
    let p_small = price_usdc_per_eth(small);
    let p_large = price_usdc_per_eth(large);
    assert!(p_small >= 0);
    assert!(p_large >= 0);
}

#[test]
fn q96_conversions_are_exact_on_powers_of_two() {
    assert_eq!(q96_to_real(Q96), WAD);
    assert_eq!(real_to_q96(WAD).unwrap(), Q96);
    assert_eq!(q96_to_real(Q96 / 2), WAD / 2);
}

#[test]
fn reciprocal_matches_exact_division() {
    assert_eq!(reciprocal(0), 0);
    assert_eq!(reciprocal(wad(2)), WAD / 2);
    assert_eq!(reciprocal(wad(1)), WAD);
}

#[test]
fn tick_zero_maps_to_unit_sqrt_price() {
    // 1.0001^0 = 1, so the Q96 sqrt-price at tick zero is exactly 2^96.
    assert_eq!(approx_sqrt_price_x96_at_tick(0), Q96);
    // Out-of-range ticks fall back to zero, including the extremes.
    assert_eq!(approx_sqrt_price_x96_at_tick(1_000_000), 0);
    assert_eq!(approx_sqrt_price_x96_at_tick(i32::MIN), 0);
    assert_eq!(approx_sqrt_price_x96_at_tick(i32::MAX), 0);
    // A nonzero tick moves the ratio off 2^96.
    assert_ne!(approx_sqrt_price_x96_at_tick(100), Q96);
}
