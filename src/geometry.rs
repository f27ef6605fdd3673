//! Fixed-point plane vectors, integer square root and normalisation.

use vstd::prelude::*;
use vstd::arithmetic::div_mod::{lemma_div_is_ordered, lemma_div_multiples_vanish};

verus! {

/// Milli-units per world unit; a normalised direction has length `UNIT`.
pub const UNIT: i64 = 1000;

/// A point or vector in the plane, in milli-units.
#[derive(Clone, Copy, Debug, PartialEq, Eq, Structural)]
pub struct Vec2 {
    pub x: i32,
    pub y: i32,
}

impl Vec2 {
    pub fn new(x: i32, y: i32) -> (r: Vec2)
        ensures
            r == (Vec2 { x, y }),
    {
        Vec2 { x, y }
    }
}

pub open spec fn zero_vec() -> Vec2 {
    Vec2 { x: 0, y: 0 }
}

/// `r` is the integer square root of `n`, rounded down.
pub open spec fn is_floor_sqrt(n: int, r: int) -> bool {
    0 <= r && r * r <= n && n < (r + 1) * (r + 1)
}

pub open spec fn floor_sqrt(n: int) -> int {
    choose|r: int| is_floor_sqrt(n, r)
}

/// Division that truncates toward zero, as Rust's integer `/` does.
pub open spec fn trunc_div(a: int, b: int) -> int {
    if a >= 0 {
        a / b
    } else {
        -((-a) / b)
    }
}

pub open spec fn abs(a: int) -> int {
    if a >= 0 {
        a
    } else {
        -a
    }
}

/// Length of the vector `(x, y)`, rounded down.
pub open spec fn length(x: int, y: int) -> int {
    floor_sqrt(x * x + y * y)
}

/// The direction of `(x, y)` scaled to length `UNIT` (each coordinate
/// truncated toward zero); the zero vector for a zero-length input.
pub open spec fn normalized(x: int, y: int) -> Vec2 {
    let l = length(x, y);
    if l == 0 {
        zero_vec()
    } else {
        Vec2 { x: trunc_div(x * UNIT, l) as i32, y: trunc_div(y * UNIT, l) as i32 }
    }
}

/// `v` scaled by `k`.
pub open spec fn scaled(v: Vec2, k: int) -> Vec2 {
    Vec2 { x: (v.x * k) as i32, y: (v.y * k) as i32 }
}

proof fn lemma_square_monotone(a: int, b: int)
    requires
        0 <= a <= b,
    ensures
        a * a <= b * b,
{
    assert(a * a <= b * b) by (nonlinear_arith)
        requires
            0 <= a <= b,
    ;
}

/// The rounded-down square root is unique.
pub proof fn lemma_floor_sqrt_unique(n: int, r: int)
    requires
        is_floor_sqrt(n, r),
    ensures
        floor_sqrt(n) == r,
{
    let s = floor_sqrt(n);
    assert(is_floor_sqrt(n, s));
    if s < r {
        lemma_square_monotone(s + 1, r);
    } else if r < s {
        lemma_square_monotone(r + 1, s);
    }
}

/// Integer square root, rounded down.
pub fn isqrt(n: u128) -> (r: u64)
    ensures
        is_floor_sqrt(n as int, r as int),
        r as int == floor_sqrt(n as int),
{
    let mut lo: u128 = 0;
    let mut hi: u128 = 0x1_0000_0000_0000_0000;
    proof {
        assert(hi * hi == 0x1_0000_0000_0000_0000_0000_0000_0000_0000int) by (nonlinear_arith)
            requires
                hi == 0x1_0000_0000_0000_0000int,
        ;
    }
    while hi - lo > 1
        invariant
            lo < hi <= 0x1_0000_0000_0000_0000,
            lo * lo <= n,
            n < hi * hi,
        decreases hi - lo,
    {
        let mid = lo + (hi - lo) / 2;
        assert(mid * mid < 0x1_0000_0000_0000_0000_0000_0000_0000_0000int) by (nonlinear_arith)
            requires
                mid < 0x1_0000_0000_0000_0000int,
                0 <= mid,
        ;
        if mid * mid <= n {
            lo = mid;
        } else {
            hi = mid;
        }
    }
    proof {
        lemma_floor_sqrt_unique(n as int, lo as int);
    }
    lo as u64
}

proof fn lemma_coordinate_within_length(x: int, y: int)
    ensures
        abs(x) <= length(x, y),
        x * x + y * y > 0 ==> length(x, y) > 0,
{
    let n = x * x + y * y;
    assert(y * y >= 0) by (nonlinear_arith);
    assert(abs(x) * abs(x) == x * x) by (nonlinear_arith);
    let l = length(x, y);
    lemma_floor_sqrt_exists(n);
    if abs(x) > l {
        lemma_square_monotone(l + 1, abs(x));
    }
    if l == 0 {
        assert((l + 1) * (l + 1) == 1) by (nonlinear_arith)
            requires
                l == 0,
        ;
    }
}

/// Every natural number has a rounded-down square root.
pub proof fn lemma_floor_sqrt_exists(n: int)
    requires
        0 <= n,
    ensures
        is_floor_sqrt(n, floor_sqrt(n)),
{
    lemma_sqrt_search(n, 0);
}

proof fn lemma_sqrt_search(n: int, r: int)
    requires
        0 <= r,
        r * r <= n,
    ensures
        is_floor_sqrt(n, floor_sqrt(n)),
    decreases n - r,
{
    if n < (r + 1) * (r + 1) {
        assert(is_floor_sqrt(n, r));
    } else {
        assert(r < n) by (nonlinear_arith)
            requires
                0 <= r,
                (r + 1) * (r + 1) <= n,
        ;
        lemma_sqrt_search(n, r + 1);
    }
}

/// One coordinate of a normalised vector: `trunc_div(c * UNIT, l)`.
fn unit_coordinate(c: i64, l: u64) -> (r: i32)
    requires
        l > 0,
        abs(c as int) <= l,
    ensures
        r as int == trunc_div(c * UNIT, l as int),
        -UNIT <= r <= UNIT,
{
    let m: u64 = if c >= 0 { c as u64 } else { (-(c as i128)) as u64 };
    proof {
        lemma_div_is_ordered(m * UNIT, l * UNIT, l as int);
        lemma_div_multiples_vanish(UNIT as int, l as int);
        assert(l * UNIT == UNIT * l) by (nonlinear_arith);
        assert(m * UNIT <= l * UNIT) by (nonlinear_arith)
            requires
                m <= l,
        ;
    }
    let q: u128 = (m as u128 * 1000) / (l as u128);
    if c >= 0 {
        q as i32
    } else {
        -(q as i32)
    }
}

/// The direction of `(x, y)` scaled to length `UNIT`; zero for a zero vector.
pub fn normalize(x: i64, y: i64) -> (r: Vec2)
    requires
        abs(x as int) <= 0x1_0000_0000,
        abs(y as int) <= 0x1_0000_0000,
    ensures
        r == normalized(x as int, y as int),
        -UNIT <= r.x <= UNIT,
        -UNIT <= r.y <= UNIT,
{
    let ax: u128 = if x >= 0 { x as u128 } else { (-(x as i128)) as u128 };
    let ay: u128 = if y >= 0 { y as u128 } else { (-(y as i128)) as u128 };
    assert(ax * ax == x * x && ay * ay == y * y) by (nonlinear_arith)
        requires
            ax == abs(x as int),
            ay == abs(y as int),
    ;
    assert(ax * ax <= 0x1_0000_0000_0000_0000 && ay * ay <= 0x1_0000_0000_0000_0000) by (nonlinear_arith)
        requires
            ax <= 0x1_0000_0000,
            ay <= 0x1_0000_0000,
    ;
    let n: u128 = ax * ax + ay * ay;
    let l = isqrt(n);
    proof {
        lemma_coordinate_within_length(x as int, y as int);
        lemma_coordinate_within_length(y as int, x as int);
        assert(y * y + x * x == x * x + y * y);
    }
    if l == 0 {
        Vec2 { x: 0, y: 0 }
    } else {
        let rx = unit_coordinate(x, l);
        let ry = unit_coordinate(y, l);
        Vec2 { x: rx, y: ry }
    }
}

/// `a / b` truncated toward zero.
pub fn div_toward_zero(a: i64, b: i64) -> (r: i64)
    requires
        b > 0,
        a > i64::MIN,
    ensures
        r as int == trunc_div(a as int, b as int),
{
    if a >= 0 {
        ((a as u64) / (b as u64)) as i64
    } else {
        -((((-a) as u64) / (b as u64)) as i64)
    }
}

/// `a / b` truncated toward zero, on wide integers.
pub fn div_toward_zero_wide(a: i128, b: i128) -> (r: i128)
    requires
        b > 0,
        a > i128::MIN,
    ensures
        r as int == trunc_div(a as int, b as int),
{
    if a >= 0 {
        ((a as u128) / (b as u128)) as i128
    } else {
        -((((-a) as u128) / (b as u128)) as i128)
    }
}

/// Length of `(x, y)`, rounded down.
pub fn length_of(x: i64, y: i64) -> (r: u64)
    requires
        abs(x as int) <= 0x1_0000_0000,
        abs(y as int) <= 0x1_0000_0000,
    ensures
        r as int == length(x as int, y as int),
{
    let ax: u128 = if x >= 0 { x as u128 } else { (-(x as i128)) as u128 };
    let ay: u128 = if y >= 0 { y as u128 } else { (-(y as i128)) as u128 };
    assert(ax * ax == x * x && ay * ay == y * y) by (nonlinear_arith)
        requires
            ax == abs(x as int),
            ay == abs(y as int),
    ;
    assert(ax * ax <= 0x1_0000_0000_0000_0000 && ay * ay <= 0x1_0000_0000_0000_0000) by (nonlinear_arith)
        requires
            ax <= 0x1_0000_0000,
            ay <= 0x1_0000_0000,
    ;
    isqrt(ax * ax + ay * ay)
}

/// `v` scaled by `k`, for results that stay within `i32`.
pub fn scale(v: Vec2, k: i32) -> (r: Vec2)
    requires
        i32::MIN <= v.x * k <= i32::MAX,
        i32::MIN <= v.y * k <= i32::MAX,
    ensures
        r == scaled(v, k as int),
{
    Vec2 { x: v.x * k, y: v.y * k }
}

} // verus!
