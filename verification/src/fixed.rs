//! Fixed-point arithmetic: integers that count millionths of a pixel.
//!
//! Sums and products are formed exactly in a wider type and narrowed once, at
//! the end, by saturation. Quotients round towards zero, so that a value and
//! its negation are treated alike.

use vstd::prelude::*;

verus! {

/// The number of raw steps in one pixel.
pub const UNIT: i64 = 1_000_000;

/// `UNIT` in the width in which exact sums and products are formed.
pub const WIDE_UNIT: i128 = 1_000_000;

/// `v`, moved to the nearer end of `low..=high` where it lies outside.
pub open spec fn bounded(v: int, low: int, high: int) -> int {
    if v < low {
        low
    } else if v > high {
        high
    } else {
        v
    }
}

/// `v`, moved into the range of a stored value.
pub open spec fn saturated(v: int) -> int {
    bounded(v, i64::MIN as int, i64::MAX as int)
}

/// The size of `v` without its sign.
pub open spec fn magnitude(v: int) -> int {
    if v < 0 {
        -v
    } else {
        v
    }
}

/// The quotient of `n` by a positive `d`, rounded towards zero.
pub open spec fn toward_zero(n: int, d: int) -> int
    recommends
        d > 0,
{
    if n >= 0 {
        n / d
    } else {
        -((-n) / d)
    }
}

/// The product of a raw value and a raw factor, as a raw value.
pub open spec fn scaled(value: int, factor: int) -> int {
    saturated(toward_zero(value * factor, UNIT as int))
}

/// The raw value of a whole number of pixels.
pub open spec fn pixels(count: int) -> int {
    count * UNIT
}

/// The pixel that a raw value falls on: its whole part, kept within `i32`.
pub open spec fn pixel_of(v: int) -> int {
    bounded(toward_zero(v, UNIT as int), i32::MIN as int, i32::MAX as int)
}

/// `r` is the whole part of the square root of `n`.
pub open spec fn is_root(n: int, r: int) -> bool {
    0 <= r && r * r <= n < (r + 1) * (r + 1)
}

/// The whole part of the square root of `n`.
pub open spec fn root(n: int) -> int {
    choose|r: int| is_root(n, r)
}

/// A number has at most one whole root, so finding one finds `root`.
pub proof fn root_is_unique(n: int, r: int)
    requires
        is_root(n, r),
    ensures
        root(n) == r,
{
    let s = root(n);
    assert(is_root(n, s));
    if s < r {
        assert((s + 1) * (s + 1) <= r * r) by (nonlinear_arith)
            requires
                0 <= s,
                s + 1 <= r,
        ;
    }
    if r < s {
        assert((r + 1) * (r + 1) <= s * s) by (nonlinear_arith)
            requires
                0 <= r,
                r + 1 <= s,
        ;
    }
}

/// The root is no smaller than either leg of the sum of squares under it.
pub proof fn root_covers_legs(a: int, b: int)
    ensures
        is_root(a * a + b * b, root(a * a + b * b)),
        magnitude(a) <= root(a * a + b * b),
        magnitude(b) <= root(a * a + b * b),
        root(a * a + b * b) == 0 <==> a == 0 && b == 0,
{
    let n = a * a + b * b;
    assert(n >= 0) by (nonlinear_arith)
        requires
            n == a * a + b * b,
    ;
    root_exists(n);
    let r = root(n);
    let ma = magnitude(a);
    let mb = magnitude(b);
    assert(ma * ma == a * a) by (nonlinear_arith)
        requires
            ma == a || ma == -a,
    ;
    assert(mb * mb == b * b) by (nonlinear_arith)
        requires
            mb == b || mb == -b,
    ;
    assert(b * b >= 0) by (nonlinear_arith);
    assert(a * a >= 0) by (nonlinear_arith);
    if ma > r {
        assert((r + 1) * (r + 1) <= ma * ma) by (nonlinear_arith)
            requires
                0 <= r,
                r + 1 <= ma,
        ;
    }
    if mb > r {
        assert((r + 1) * (r + 1) <= mb * mb) by (nonlinear_arith)
            requires
                0 <= r,
                r + 1 <= mb,
        ;
    }
    if a == 0 && b == 0 && r > 0 {
        assert(r * r > 0) by (nonlinear_arith)
            requires
                r > 0,
        ;
    }
}

/// Every number from zero on has a whole root.
pub proof fn root_exists(n: int)
    requires
        n >= 0,
    ensures
        is_root(n, root(n)),
    decreases n,
{
    if n == 0 {
        assert(is_root(0, 0));
    } else {
        root_exists(n - 1);
        let r = root(n - 1);
        if (r + 1) * (r + 1) <= n {
            assert((r + 1) * (r + 1) == n);
            assert(n < (r + 2) * (r + 2)) by (nonlinear_arith)
                requires
                    (r + 1) * (r + 1) == n,
                    0 <= r,
            ;
            assert(is_root(n, r + 1));
        } else {
            assert(is_root(n, r));
        }
    }
}

/// Narrows an exact value to a stored one by saturation.
pub fn saturate(v: i128) -> (r: i64)
    ensures
        r == saturated(v as int),
{
    if v < i64::MIN as i128 {
        i64::MIN
    } else if v > i64::MAX as i128 {
        i64::MAX
    } else {
        v as i64
    }
}

/// Multiplies a raw value by a raw factor.
///
/// The factor is wider than a stored value so that `UNIT - drag` and a negated
/// coefficient can be handed over as they are.
pub fn scale(value: i64, factor: i128) -> (r: i64)
    requires
        -0x1_0000_0000_0000_0000 < factor < 0x1_0000_0000_0000_0000,
    ensures
        r == scaled(value as int, factor as int),
{
    let wide: i128 = value as i128;
    assert(-0x7fff_ffff_ffff_ffff_8000_0000_0000_0000 <= wide * factor
        <= 0x7fff_ffff_ffff_ffff_8000_0000_0000_0000) by (nonlinear_arith)
        requires
            -0x8000_0000_0000_0000 <= wide <= 0x7fff_ffff_ffff_ffff,
            -0xffff_ffff_ffff_ffff <= factor <= 0xffff_ffff_ffff_ffff,
    ;
    let product: i128 = wide * factor;
    saturate(product / WIDE_UNIT)
}

/// The raw value of a whole number of pixels, in the wide type: no count is
/// too large for it.
pub fn wide_pixels(count: i64) -> (r: i128)
    ensures
        r == pixels(count as int),
{
    (count as i128) * WIDE_UNIT
}

/// The raw value of a whole number of pixels.
pub fn from_pixels(count: i32) -> (r: i64)
    ensures
        r == pixels(count as int),
{
    (count as i64) * UNIT
}

/// The pixel that a raw value falls on.
pub fn to_pixel(v: i64) -> (r: i32)
    ensures
        r == pixel_of(v as int),
{
    let whole: i64 = v / UNIT;
    if whole < i32::MIN as i64 {
        i32::MIN
    } else if whole > i32::MAX as i64 {
        i32::MAX
    } else {
        whole as i32
    }
}

/// The whole part of the square root of `n`, found by bisection.
pub fn floor_sqrt(n: u128) -> (r: u64)
    ensures
        is_root(n as int, r as int),
        r == root(n as int),
{
    let mut low: u128 = 0;
    let mut high: u128 = 0x1_0000_0000_0000_0000;
    assert(high * high > n) by (nonlinear_arith)
        requires
            high == 0x1_0000_0000_0000_0000,
            n <= 0xffff_ffff_ffff_ffff_ffff_ffff_ffff_ffff,
    ;
    while high - low > 1
        invariant
            low < high <= 0x1_0000_0000_0000_0000,
            low * low <= n < high * high,
        decreases high - low,
    {
        let mid: u128 = low + (high - low) / 2;
        assert(mid * mid <= 0xffff_ffff_ffff_ffff_ffff_ffff_ffff_ffff) by (nonlinear_arith)
            requires
                0 <= mid <= 0xffff_ffff_ffff_ffff,
        ;
        let square: u128 = mid * mid;
        if square <= n {
            low = mid;
        } else {
            high = mid;
        }
    }
    proof {
        root_is_unique(n as int, low as int);
    }
    low as u64
}

} // verus!
