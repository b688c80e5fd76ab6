//! Exact wide-integer arithmetic used by the fixed-point price engine.
//!
//! Products of two 128-bit values and products of those with a further
//! 128-bit factor are kept exactly in two- and three-limb little-endian
//! forms, so every conversion between human decimal prices and Q96
//! sqrt-prices is an exact integer computation with a proved floor/ceil
//! characterisation.

use vstd::prelude::*;
use vstd::arithmetic::div_mod::lemma_fundamental_div_mod;

verus! {

/// 2^64 as an int, for limb decompositions.
pub open spec fn b64() -> int {
    0x10000000000000000
}

/// 2^128 as an int, the limb base.
pub open spec fn b128() -> int {
    0x100000000000000000000000000000000int
}

/// An exact 256-bit value `hi * 2^128 + lo`.
#[derive(Clone, Copy, Debug, PartialEq, Eq, Structural)]
pub struct Wide256 {
    pub hi: u128,
    pub lo: u128,
}

/// An exact 384-bit value `w2 * 2^256 + w1 * 2^128 + w0`.
#[derive(Clone, Copy, Debug, PartialEq, Eq, Structural)]
pub struct Wide384 {
    pub w2: u128,
    pub w1: u128,
    pub w0: u128,
}

/// Mathematical value of a two-limb number.
pub open spec fn w256(x: Wide256) -> int {
    x.hi * b128() + x.lo
}

/// Mathematical value of a three-limb number.
pub open spec fn w384(x: Wide384) -> int {
    x.w2 * b128() * b128() + x.w1 * b128() + x.w0
}

/// Exact product of two `u128` values as a two-limb number.
pub fn mul_128(a: u128, b: u128) -> (r: Wide256)
    ensures
        w256(r) == a * b,
{
    let a1: u128 = a / 0x10000000000000000;
    let a0: u128 = a % 0x10000000000000000;
    let b1: u128 = b / 0x10000000000000000;
    let b0: u128 = b % 0x10000000000000000;
    proof {
        lemma_fundamental_div_mod(a as int, b64());
        lemma_fundamental_div_mod(b as int, b64());
        assert(a1 < 0x10000000000000000 && b1 < 0x10000000000000000);
        assert((b64() - 1) * (b64() - 1) < b128()) by (nonlinear_arith);
        assert(forall|x: int, y: int|
            0 <= x < b64() && 0 <= y < b64() ==> #[trigger] (x * y) <= (b64() - 1) * (b64() - 1))
            by (nonlinear_arith);
    }
    let p00: u128 = a0 * b0;
    let p01: u128 = a0 * b1;
    let p10: u128 = a1 * b0;
    let p11: u128 = a1 * b1;
    // Reassemble with 64-bit carries; every sum below stays within u128.
    let c0: u128 = p00 % 0x10000000000000000;
    let s1: u128 = p00 / 0x10000000000000000 + p01 % 0x10000000000000000 + p10
        % 0x10000000000000000;
    let c1: u128 = s1 % 0x10000000000000000;
    let s2: u128 = s1 / 0x10000000000000000 + p01 / 0x10000000000000000 + p10
        / 0x10000000000000000 + p11 % 0x10000000000000000;
    let c2: u128 = s2 % 0x10000000000000000;
    let s3: u128 = s2 / 0x10000000000000000 + p11 / 0x10000000000000000;
    let lo: u128 = c1 * 0x10000000000000000 + c0;
    let ghost h: int = s3 * b64() + c2;
    proof {
        lemma_fundamental_div_mod(p00 as int, b64());
        lemma_fundamental_div_mod(p01 as int, b64());
        lemma_fundamental_div_mod(p10 as int, b64());
        lemma_fundamental_div_mod(p11 as int, b64());
        lemma_fundamental_div_mod(s1 as int, b64());
        lemma_fundamental_div_mod(s2 as int, b64());
        // The partial products recombine to the full product.
        assert(a * b == p11 * b128() + p01 * b64() + p10 * b64() + p00) by (nonlinear_arith)
            requires
                a == a1 * b64() + a0,
                b == b1 * b64() + b0,
                p00 == a0 * b0,
                p01 == a0 * b1,
                p10 == a1 * b0,
                p11 == a1 * b1,
                b64() == 0x10000000000000000,
                b128() == 0x100000000000000000000000000000000int,
        ;
        // Carry bookkeeping is linear once each div/mod split is in scope.
        assert(h * b128() + lo == a * b);
        // The product fits in 256 bits, so the assembled high half fits u128.
        assert(a * b < b128() * b128()) by (nonlinear_arith)
            requires
                0 <= a < b128(),
                0 <= b < b128(),
        ;
        assert(h * b128() < b128() * b128());
        assert(h < b128());
    }
    let hi: u128 = s3 * 0x10000000000000000 + c2;
    Wide256 { hi, lo }
}

/// A `u128` as a two-limb number.
pub fn w256_of(a: u128) -> (r: Wide256)
    ensures
        w256(r) == a,
{
    Wide256 { hi: 0, lo: a }
}

/// A two-limb number widened to three limbs.
pub fn widen_384(x: Wide256) -> (r: Wide384)
    ensures
        w384(r) == w256(x),
{
    Wide384 { w2: 0, w1: x.hi, w0: x.lo }
}

/// Exact comparison of three-limb numbers.
pub fn w384_le(x: Wide384, y: Wide384) -> (r: bool)
    ensures
        r == (w384(x) <= w384(y)),
{
    if x.w2 < y.w2 {
        true
    } else if x.w2 == y.w2 {
        if x.w1 < y.w1 {
            true
        } else if x.w1 == y.w1 {
            x.w0 <= y.w0
        } else {
            false
        }
    } else {
        false
    }
}

/// Exact product of a two-limb number and a `u128`, as a three-limb number.
pub fn mul_256_128(x: Wide256, c: u128) -> (r: Wide384)
    ensures
        w384(r) == w256(x) * c,
{
    let pl: Wide256 = mul_128(x.lo, c);
    let ph: Wide256 = mul_128(x.hi, c);
    let w0: u128 = pl.lo;
    let w1: u128;
    let carry: u128;
    if pl.hi <= u128::MAX - ph.lo {
        w1 = ph.lo + pl.hi;
        carry = 0;
    } else {
        w1 = ph.lo - (u128::MAX - pl.hi) - 1;
        carry = 1;
    }
    let ghost w2g: int = ph.hi + carry;
    proof {
        assert(w2g * b128() * b128() + w1 * b128() + w0 == w256(x) * c) by (nonlinear_arith)
            requires
                w2g * b128() == ph.hi * b128() + carry * b128(),
                carry * b128() + w1 == ph.lo + pl.hi,
                w256(ph) == x.hi * c,
                w256(pl) == x.lo * c,
                w256(ph) == ph.hi * b128() + ph.lo,
                w256(pl) == pl.hi * b128() + pl.lo,
                w256(x) == x.hi * b128() + x.lo,
                w0 == pl.lo,
                b128() == 0x100000000000000000000000000000000int,
        ;
        assert(w256(x) * c < b128() * b128() * b128()) by (nonlinear_arith)
            requires
                0 <= w256(x) < b128() * b128(),
                0 <= c < b128(),
        ;
        assert(w2g < b128());
    }
    let w2: u128 = ph.hi + carry;
    Wide384 { w2, w1, w0 }
}

/// Floor division of a three-limb number by a positive two-limb number,
/// by binary search over the quotient. `None` exactly when the quotient
/// does not fit in a `u128`.
pub fn div_384_256(n: Wide384, d: Wide256) -> (r: Option<u128>)
    requires
        w256(d) > 0,
    ensures
        match r {
            Some(q) => {
                &&& q * w256(d) <= w384(n) < (q + 1) * w256(d)
                &&& q == w384(n) / w256(d)
            },
            None => w384(n) >= b128() * w256(d),
        },
{
    let shifted: Wide384 = Wide384 { w2: d.hi, w1: d.lo, w0: 0 };
    proof {
        assert(w384(shifted) == b128() * w256(d)) by (nonlinear_arith)
            requires
                w384(shifted) == d.hi * b128() * b128() + d.lo * b128(),
                w256(d) == d.hi * b128() + d.lo,
                b128() == 0x100000000000000000000000000000000int,
        ;
    }
    if w384_le(shifted, n) {
        return None;
    }
    let mut lo: u128 = 0;
    let mut hi: u128 = u128::MAX;
    proof {
        assert(0 * w256(d) == 0);
        assert((hi + 1) * w256(d) == b128() * w256(d));
    }
    while lo < hi
        invariant
            w256(d) > 0,
            lo <= hi,
            lo * w256(d) <= w384(n),
            (hi + 1) * w256(d) > w384(n),
        decreases hi - lo,
    {
        let mid: u128 = lo + (hi - lo) / 2 + 1;
        let prod: Wide384 = mul_256_128(d, mid);
        proof {
            assert(w384(prod) == mid * w256(d)) by (nonlinear_arith)
                requires
                    w384(prod) == w256(d) * mid,
            ;
        }
        if w384_le(prod, n) {
            lo = mid;
        } else {
            hi = mid - 1;
        }
    }
    proof {
        assert((lo + 1) * w256(d) == lo * w256(d) + w256(d)) by (nonlinear_arith);
        vstd::arithmetic::div_mod::lemma_fundamental_div_mod_converse(
            w384(n),
            w256(d),
            lo as int,
            w384(n) - lo * w256(d),
        );
    }
    Some(lo)
}

/// Ceiling division of a three-limb number by a positive two-limb number.
/// `None` exactly when the rounded-up quotient does not fit in a `u128`.
pub fn div_384_256_ceil(n: Wide384, d: Wide256) -> (r: Option<u128>)
    requires
        w256(d) > 0,
    ensures
        match r {
            Some(c) => c * w256(d) >= w384(n) && c * w256(d) < w384(n) + w256(d),
            None => w384(n) > (b128() - 1) * w256(d),
        },
{
    let q: u128 = match div_384_256(n, d) {
        Some(q) => q,
        None => {
            proof {
                assert(b128() * w256(d) > (b128() - 1) * w256(d)) by (nonlinear_arith)
                    requires
                        w256(d) > 0,
                ;
            }
            return None;
        },
    };
    let back: Wide384 = mul_256_128(d, q);
    if back.w2 == n.w2 && back.w1 == n.w1 && back.w0 == n.w0 {
        // Exact division: the floor is the ceiling.
        Some(q)
    } else {
        proof {
            assert(w384(back) != w384(n));
            assert((q + 1) * w256(d) == q * w256(d) + w256(d)) by (nonlinear_arith);
        }
        if q == u128::MAX {
            proof {
                assert(w384(n) > (b128() - 1) * w256(d));
            }
            return None;
        }
        Some(q + 1)
    }
}

/// Largest `s` with `s * s * m <= n`, by binary search; the integer square
/// root of `n / m` in other words. `None` exactly when that root does not
/// fit in a `u128`.
pub fn sqrt_384(n: Wide384, m: u128) -> (r: Option<u128>)
    requires
        m > 0,
    ensures
        match r {
            Some(s) => s * s * m <= w384(n) < (s + 1) * (s + 1) * m,
            None => w384(n) >= b128() * b128() * m,
        },
{
    if m <= n.w2 {
        proof {
            assert(b128() * b128() * m <= n.w2 * b128() * b128()) by (nonlinear_arith)
                requires
                    m <= n.w2,
                    b128() > 0,
            ;
        }
        return None;
    }
    let mut lo: u128 = 0;
    let mut hi: u128 = u128::MAX;
    proof {
        assert(0 * 0 * m == 0);
        assert((hi + 1) * (hi + 1) * m == b128() * b128() * m);
        assert(b128() * b128() * m >= (n.w2 + 1) * b128() * b128()) by (nonlinear_arith)
            requires
                m >= n.w2 + 1,
                b128() > 0,
        ;
        assert((n.w2 + 1) * b128() * b128() > w384(n)) by (nonlinear_arith)
            requires
                w384(n) == n.w2 * b128() * b128() + n.w1 * b128() + n.w0,
                0 <= n.w1 < b128(),
                0 <= n.w0 < b128(),
                b128() == 0x100000000000000000000000000000000int,
        ;
    }
    while lo < hi
        invariant
            m > 0,
            lo <= hi,
            lo * lo * m <= w384(n),
            (hi + 1) * (hi + 1) * m > w384(n),
        decreases hi - lo,
    {
        let mid: u128 = lo + (hi - lo) / 2 + 1;
        let sq: Wide256 = mul_128(mid, mid);
        let prod: Wide384 = mul_256_128(sq, m);
        proof {
            assert(w384(prod) == mid * mid * m) by (nonlinear_arith)
                requires
                    w384(prod) == w256(sq) * m,
                    w256(sq) == mid * mid,
            ;
        }
        if w384_le(prod, n) {
            lo = mid;
        } else {
            hi = mid - 1;
        }
    }
    Some(lo)
}

} // verus!
