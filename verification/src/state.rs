//! Immutable pool snapshot: current sqrt-price, active liquidity, tick, and
//! the ordered constant-liquidity segments extending beyond the current
//! tick in each direction.

use vstd::prelude::*;
use crate::errors::CoreError;
use crate::models::WAD;
use crate::univ3::{sqrt_ratio_at_tick, tick_sqrt_ratio};
use crate::wide::{b128, div_384_256, mul_128, w256, w256_of, w384, widen_384, Wide256, Wide384};

verus! {

/// A contiguous sqrt-price range with constant liquidity, one tick-bounded
/// piece of the pool's curve. For downward segments
/// `start_sqrt_price_x96 > end_sqrt_price_x96`; for upward segments the
/// reverse.
#[derive(Clone, Copy, Debug, PartialEq, Eq, Structural)]
pub struct PriceSegment {
    pub start_sqrt_price_x96: u128,
    pub end_sqrt_price_x96: u128,
    pub liquidity: u128,
}

/// Minimal immutable snapshot of a concentrated-liquidity pool, everything
/// the swap solver needs: current Q96 sqrt-price, in-range liquidity,
/// current tick, token decimal scales, the current tick's own sqrt-price
/// bounds when known, and the pre-built segment lists for multi-tick moves.
#[derive(Clone, Debug)]
pub struct PoolState {
    /// Current sqrt(token1/token0 raw ratio) in Q96 form; positive.
    pub sqrt_price_x96: u128,
    /// Active liquidity at the current tick.
    pub liquidity: u128,
    /// Current tick index.
    pub tick: i32,
    /// Decimal scale of token0 (e.g. 6 for a 6-decimal stablecoin).
    pub token0_decimals: u8,
    /// Decimal scale of token1 (e.g. 18 for a typical base asset).
    pub token1_decimals: u8,
    /// Lower sqrt-price bound of the current tick's range, if known.
    pub limit_lower_sqrt_price_x96: Option<u128>,
    /// Upper sqrt-price bound of the current tick's range, if known.
    pub limit_upper_sqrt_price_x96: Option<u128>,
    /// Constant-liquidity ranges below the current tick, nearest first;
    /// traversed by token0-in swaps (sqrt-price decreasing).
    pub segments_down: Vec<PriceSegment>,
    /// Constant-liquidity ranges above the current tick, nearest first;
    /// traversed by token1-in swaps (sqrt-price increasing).
    pub segments_up: Vec<PriceSegment>,
}

impl PoolState {
    /// A downward segment chain is contiguous and strictly decreasing,
    /// starting at `from`, with positive sqrt-prices throughout.
    pub open spec fn down_chain_ok(segs: Seq<PriceSegment>, from: u128) -> bool {
        &&& (segs.len() > 0 ==> segs[0].start_sqrt_price_x96 == from)
        &&& forall|i: int|
            0 <= i < segs.len() ==> 0 < #[trigger] segs[i].end_sqrt_price_x96
                < segs[i].start_sqrt_price_x96
        &&& forall|i: int|
            0 < i < segs.len() ==> #[trigger] segs[i].start_sqrt_price_x96 == segs[i
                - 1].end_sqrt_price_x96
    }

    /// An upward segment chain is contiguous and strictly increasing,
    /// starting at `from`.
    pub open spec fn up_chain_ok(segs: Seq<PriceSegment>, from: u128) -> bool {
        &&& (segs.len() > 0 ==> segs[0].start_sqrt_price_x96 == from)
        &&& forall|i: int|
            0 <= i < segs.len() ==> #[trigger] segs[i].start_sqrt_price_x96 < segs[i
                ].end_sqrt_price_x96
        &&& forall|i: int|
            0 < i < segs.len() ==> #[trigger] segs[i].start_sqrt_price_x96 == segs[i
                - 1].end_sqrt_price_x96
    }

    /// Snapshot well-formedness: positive sqrt-price, bounds that straddle
    /// it, and contiguous segment chains hanging off those bounds.
    pub open spec fn wf(self) -> bool {
        &&& self.sqrt_price_x96 > 0
        &&& match self.limit_lower_sqrt_price_x96 {
            Some(l) => 0 < l <= self.sqrt_price_x96,
            None => self.segments_down@.len() == 0,
        }
        &&& match self.limit_upper_sqrt_price_x96 {
            Some(u) => self.sqrt_price_x96 <= u,
            None => self.segments_up@.len() == 0,
        }
        &&& (self.limit_lower_sqrt_price_x96 is Some ==> Self::down_chain_ok(
            self.segments_down@,
            self.limit_lower_sqrt_price_x96->0,
        ))
        &&& (self.limit_upper_sqrt_price_x96 is Some ==> Self::up_chain_ok(
            self.segments_up@,
            self.limit_upper_sqrt_price_x96->0,
        ))
    }

    /// Plain constructor; validation is the solver's job, which rejects a
    /// malformed snapshot with an explicit error rather than panicking.
    pub fn new(
        sqrt_price_x96: u128,
        liquidity: u128,
        tick: i32,
        token0_decimals: u8,
        token1_decimals: u8,
        limit_lower_sqrt_price_x96: Option<u128>,
        limit_upper_sqrt_price_x96: Option<u128>,
        segments_down: Vec<PriceSegment>,
        segments_up: Vec<PriceSegment>,
    ) -> (s: PoolState)
        ensures
            s.sqrt_price_x96 == sqrt_price_x96,
            s.liquidity == liquidity,
            s.tick == tick,
            s.token0_decimals == token0_decimals,
            s.token1_decimals == token1_decimals,
            s.limit_lower_sqrt_price_x96 == limit_lower_sqrt_price_x96,
            s.limit_upper_sqrt_price_x96 == limit_upper_sqrt_price_x96,
            s.segments_down@ == segments_down@,
            s.segments_up@ == segments_up@,
    {
        PoolState {
            sqrt_price_x96,
            liquidity,
            tick,
            token0_decimals,
            token1_decimals,
            limit_lower_sqrt_price_x96,
            limit_upper_sqrt_price_x96,
            segments_down,
            segments_up,
        }
    }

    /// Run-time well-formedness check, exactly the `wf` predicate.
    pub fn validate(&self) -> (b: bool)
        ensures
            b == self.wf(),
    {
        if self.sqrt_price_x96 == 0 {
            return false;
        }
        match self.limit_lower_sqrt_price_x96 {
            Some(l) => {
                if !(0 < l && l <= self.sqrt_price_x96) {
                    return false;
                }
                if !Self::check_down_chain(&self.segments_down, l) {
                    return false;
                }
            },
            None => {
                if self.segments_down.len() != 0 {
                    return false;
                }
            },
        }
        match self.limit_upper_sqrt_price_x96 {
            Some(u) => {
                if !(self.sqrt_price_x96 <= u) {
                    return false;
                }
                if !Self::check_up_chain(&self.segments_up, u) {
                    return false;
                }
            },
            None => {
                if self.segments_up.len() != 0 {
                    return false;
                }
            },
        }
        true
    }

    fn check_down_chain(segs: &Vec<PriceSegment>, from: u128) -> (b: bool)
        ensures
            b == Self::down_chain_ok(segs@, from),
    {
        let mut i: usize = 0;
        let mut prev: u128 = from;
        while i < segs.len()
            invariant
                i <= segs@.len(),
                i == 0 ==> prev == from,
                i > 0 ==> prev == segs@[i - 1].end_sqrt_price_x96,
                segs@.len() > 0 && i > 0 ==> segs@[0].start_sqrt_price_x96 == from,
                forall|j: int|
                    0 <= j < i ==> 0 < #[trigger] segs@[j].end_sqrt_price_x96
                        < segs@[j].start_sqrt_price_x96,
                forall|j: int|
                    0 < j < i ==> #[trigger] segs@[j].start_sqrt_price_x96 == segs@[j
                        - 1].end_sqrt_price_x96,
            decreases segs@.len() - i,
        {
            let s = segs[i];
            if s.start_sqrt_price_x96 != prev {
                return false;
            }
            if !(0 < s.end_sqrt_price_x96 && s.end_sqrt_price_x96 < s.start_sqrt_price_x96) {
                return false;
            }
            prev = s.end_sqrt_price_x96;
            i = i + 1;
        }
        true
    }

    fn check_up_chain(segs: &Vec<PriceSegment>, from: u128) -> (b: bool)
        ensures
            b == Self::up_chain_ok(segs@, from),
    {
        let mut i: usize = 0;
        let mut prev: u128 = from;
        while i < segs.len()
            invariant
                i <= segs@.len(),
                i == 0 ==> prev == from,
                i > 0 ==> prev == segs@[i - 1].end_sqrt_price_x96,
                segs@.len() > 0 && i > 0 ==> segs@[0].start_sqrt_price_x96 == from,
                forall|j: int|
                    0 <= j < i ==> #[trigger] segs@[j].start_sqrt_price_x96 < segs@[j
                        ].end_sqrt_price_x96,
                forall|j: int|
                    0 < j < i ==> #[trigger] segs@[j].start_sqrt_price_x96 == segs@[j
                        - 1].end_sqrt_price_x96,
            decreases segs@.len() - i,
        {
            let s = segs[i];
            if s.start_sqrt_price_x96 != prev {
                return false;
            }
            if !(s.start_sqrt_price_x96 < s.end_sqrt_price_x96) {
                return false;
            }
            prev = s.end_sqrt_price_x96;
            i = i + 1;
        }
        true
    }
}

/// A Q96 value as a wad decimal, rounded down:
/// `floor(q * 10^18 / 2^96)`.
pub fn q96_to_real(q96_value: u128) -> (r: u128)
    ensures
        r == q96_value * WAD / crate::price::q96(),
{
    let n: Wide384 = widen_384(mul_128(q96_value, WAD));
    let d: Wide256 = w256_of(0x1000000000000000000000000);
    proof {
        assert(w384(n) < b128() * w256(d)) by (nonlinear_arith)
            requires
                w384(n) == q96_value * WAD,
                q96_value < b128(),
                w256(d) == crate::price::q96(),
                WAD < crate::price::q96(),
                b128() > 0,
                WAD == 1000000000000000000,
                crate::price::q96() == 0x1000000000000000000000000int,
        ;
    }
    match div_384_256(n, d) {
        Some(q) => q,
        None => {
            // Unreachable: the quotient is below 2^128 because WAD < 2^96.
            proof {
                assert(false);
            }
            0
        },
    }
}

/// A wad decimal as a Q96 value, rounded down:
/// `floor(w * 2^96 / 10^18)`; fails with `Overflow` when the Q96 form
/// needs 128 bits or more.
pub fn real_to_q96(real_wad: u128) -> (r: Result<u128, CoreError>)
    ensures
        match r {
            Ok(q) => q == real_wad * crate::price::q96() / WAD as int,
            Err(e) => e == CoreError::Overflow && real_wad * crate::price::q96() >= b128() * WAD,
        },
{
    let n: Wide384 = widen_384(mul_128(real_wad, 0x1000000000000000000000000));
    let d: Wide256 = w256_of(WAD);
    match div_384_256(n, d) {
        Some(q) => Ok(q),
        None => Err(CoreError::Overflow),
    }
}

/// The wad reciprocal of a wad value, rounded down:
/// `floor(10^36 / w)`; zero in yields zero out (the display convention for
/// a missing quote).
pub fn reciprocal(x_wad: u128) -> (r: u128)
    ensures
        x_wad == 0 ==> r == 0,
        x_wad > 0 ==> r == 1000000000000000000000000000000000000int / x_wad as int,
{
    if x_wad == 0 {
        0
    } else {
        1000000000000000000000000000000000000u128 / x_wad
    }
}

/// The Q96 sqrt-price at a tick index, through the exact tick-math routine;
/// zero when the tick is out of range or the ratio needs 128 bits or more
/// (the display fallback convention: never an error on a read path).
pub fn approx_sqrt_price_x96_at_tick(tick: i32) -> (r: u128)
    ensures
        (-887272 <= tick <= 887272 && tick_sqrt_ratio(tick as int) < b128()) ==> r
            == tick_sqrt_ratio(tick as int),
        !(-887272 <= tick <= 887272 && tick_sqrt_ratio(tick as int) < b128()) ==> r == 0,
{
    // Range-check before the tick-math call: its own check negates the
    // tick first, which would not return on the extreme negative value.
    if tick < -887272 || tick > 887272 {
        return 0;
    }
    match sqrt_ratio_at_tick(tick) {
        Some(v) => v,
        None => 0,
    }
}

/// The current tick's surrounding initialized-tick range, with Rust's
/// truncating remainder convention for negative ticks: the lower bound is
/// `tick - trunc_mod(tick, spacing)` and the upper bound one spacing above.
pub open spec fn trunc_mod(a: int, b: int) -> int {
    if a >= 0 {
        a % b
    } else {
        -((-a) % b)
    }
}

/// Round a tick down (toward zero) to its tick-spacing grid and return the
/// grid range `(lower, upper)` containing it.
pub fn tick_range(tick: i32, tick_spacing: i32) -> (r: (i32, i32))
    requires
        0 < tick_spacing <= 887272,
        -887272 <= tick <= 887272,
    ensures
        r.0 == tick - trunc_mod(tick as int, tick_spacing as int),
        r.1 == r.0 + tick_spacing,
{
    let rem: i32 = if tick >= 0 {
        tick % tick_spacing
    } else {
        -((-tick) % tick_spacing)
    };
    (tick - rem, tick - rem + tick_spacing)
}

} // verus!
