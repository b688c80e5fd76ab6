use vstd::prelude::*;

verus! {

/// The fixed-point scale used for all human-unit quantities (prices,
/// order quantities, swap amounts, profit): a value `v` is represented by
/// the integer `v * 10^18`.
pub const WAD: u128 = 1_000_000_000_000_000_000;

/// Swap direction through the pool, as a closed two-case tag.
///
/// Price moves map to sqrt-price moves in a single fixed direction per case:
/// `Token0ToToken1` always decreases the pool's sqrt-price,
/// `Token1ToToken0` always increases it.
#[derive(Clone, Copy, Debug, PartialEq, Eq, Structural)]
pub enum SwapDirection {
    /// token0 in, token1 out; the raw token1/token0 ratio falls, so the
    /// Q96 sqrt-price falls and the human price (quote per base) rises.
    Token0ToToken1,
    /// token1 in, token0 out; the Q96 sqrt-price rises and the human
    /// price falls.
    Token1ToToken0,
}

/// Result of sizing a swap against the pool curve.
///
/// `amount_in` and `amount_out` are human-unit wad values (input token and
/// output token respectively). Exactly one of four terminations describes a
/// result: the target price was reached (both flags false, amounts may be
/// zero only if the move was empty), the last available segment ran out
/// (`hit_boundary`), the caller's input cap truncated the move
/// (`capped_by_max`), or the direction was infeasible (zero amounts, both
/// flags false).
#[derive(Clone, Copy, Debug, PartialEq, Eq, Structural)]
pub struct SwapResult {
    /// Input amount in wad human units of the input token, LP fee included.
    pub amount_in: u128,
    /// Output amount in wad human units of the output token.
    pub amount_out: u128,
    /// True when the move was truncated by running out of liquidity
    /// segments rather than by reaching the target price.
    pub hit_boundary: bool,
    /// True when the move was truncated by the caller-supplied input cap.
    pub capped_by_max: bool,
}

impl SwapResult {
    /// The zero result used for infeasible directions.
    pub open spec fn zero_spec() -> SwapResult {
        SwapResult { amount_in: 0, amount_out: 0, hit_boundary: false, capped_by_max: false }
    }

    /// Build the zero result.
    pub fn zero() -> (r: SwapResult)
        ensures
            r == SwapResult::zero_spec(),
    {
        SwapResult { amount_in: 0, amount_out: 0, hit_boundary: false, capped_by_max: false }
    }
}

/// Order-book depth snapshot: `(price, quantity)` levels in wad units,
/// best price first on both sides. An empty side means "no quote", not a
/// zero price.
#[derive(Clone, Debug)]
pub struct BookDepth {
    pub timestamp: u64,
    /// Buy levels, highest price first; each entry is (price, quantity).
    pub bids: Vec<(u128, u128)>,
    /// Sell levels, lowest price first; each entry is (price, quantity).
    pub asks: Vec<(u128, u128)>,
}

impl Default for BookDepth {
    /// An empty snapshot: no quotes on either side.
    fn default() -> (d: BookDepth)
        ensures
            d.timestamp == 0,
            d.bids@.len() == 0,
            d.asks@.len() == 0,
    {
        BookDepth { timestamp: 0, bids: Vec::new(), asks: Vec::new() }
    }
}

/// Trading-cost knobs grouped for callers that size trades; fees are in
/// basis points, the gas cost in wad quote units.
#[derive(Clone, Copy, Debug, Default)]
pub struct TradeCosts {
    /// DEX liquidity-provider fee, e.g. 30 for 0.30%.
    pub dex_fee_bps: u32,
    /// CEX taker fee, e.g. 10 for 0.10%.
    pub cex_fee_bps: u32,
    /// Gas cost expressed in wad units of token1 (the quote currency).
    pub gas_cost_token1: u128,
}

} // verus!
