//! Points, rectangles and the integer helpers that the canvas arithmetic uses.

use vstd::prelude::*;
use vstd::arithmetic::div_mod::lemma_fundamental_div_mod;

verus! {

/// Screen coordinates are kept in sixteenths of a pixel.
pub const SCREEN_UNITS_PER_PIXEL: i64 = 16;

/// World coordinates are kept in 1024ths of a pixel (at zoom 1).
pub const WORLD_UNITS_PER_PIXEL: i64 = 1024;

/// Largest magnitude of a screen coordinate handed to the camera.
pub const SCREEN_LIMIT: i64 = 0x8000_0000;

/// Largest magnitude of a world coordinate that the camera's target, the
/// components' positions and the pins may take.
pub const WORLD_LIMIT: i64 = 0x100_0000_0000;

/// A point in screen units or world units, by context.
#[derive(Clone, Copy, Debug, PartialEq, Eq, Structural)]
pub struct Point {
    pub x: i64,
    pub y: i64,
}

/// An axis-aligned rectangle: its top-left corner and its extent.
#[derive(Clone, Copy, Debug, PartialEq, Eq, Structural)]
pub struct Rect {
    pub x: i64,
    pub y: i64,
    pub width: i64,
    pub height: i64,
}

pub open spec fn clamp_int(v: int, lo: int, hi: int) -> int {
    if v < lo {
        lo
    } else if v > hi {
        hi
    } else {
        v
    }
}

/// Division rounding towards negative infinity (`d > 0`).
pub open spec fn floor_div(a: int, d: int) -> int {
    a / d
}

/// Division rounding towards positive infinity (`d > 0`).
pub open spec fn ceil_div(a: int, d: int) -> int {
    -((-a) / d)
}

pub open spec fn in_screen_range(p: Point) -> bool {
    -SCREEN_LIMIT <= p.x <= SCREEN_LIMIT && -SCREEN_LIMIT <= p.y <= SCREEN_LIMIT
}

pub open spec fn in_world_range(p: Point) -> bool {
    -WORLD_LIMIT <= p.x <= WORLD_LIMIT && -WORLD_LIMIT <= p.y <= WORLD_LIMIT
}

pub open spec fn clamp_world_spec(x: int, y: int) -> Point {
    Point {
        x: clamp_int(x, -WORLD_LIMIT as int, WORLD_LIMIT as int) as i64,
        y: clamp_int(y, -WORLD_LIMIT as int, WORLD_LIMIT as int) as i64,
    }
}

impl Point {
    pub fn new(x: i64, y: i64) -> (r: Point)
        ensures
            r == (Point { x, y }),
    {
        Point { x, y }
    }
}

impl Rect {
    /// Whether `p` lies in the rectangle, edges included on the top and left
    /// and excluded on the bottom and right.
    pub open spec fn spec_contains(self, p: Point) -> bool {
        self.x <= p.x < self.x + self.width && self.y <= p.y < self.y + self.height
    }

    pub fn contains(&self, p: Point) -> (r: bool)
        ensures
            r == self.spec_contains(p),
    {
        let px = p.x as i128;
        let py = p.y as i128;
        let x = self.x as i128;
        let y = self.y as i128;
        x <= px && px < x + self.width as i128 && y <= py && py < y + self.height as i128
    }
}

pub fn clamp_i128(v: i128, lo: i64, hi: i64) -> (r: i64)
    requires
        lo <= hi,
    ensures
        r == clamp_int(v as int, lo as int, hi as int),
{
    if v < lo as i128 {
        lo
    } else if v > hi as i128 {
        hi
    } else {
        v as i64
    }
}

/// Clamps a pair of wide coordinates into the world's range.
pub fn clamp_world(x: i128, y: i128) -> (r: Point)
    ensures
        r == clamp_world_spec(x as int, y as int),
        in_world_range(r),
{
    Point { x: clamp_i128(x, -WORLD_LIMIT, WORLD_LIMIT), y: clamp_i128(y, -WORLD_LIMIT, WORLD_LIMIT) }
}

proof fn lemma_div_neg(a: int, d: int)
    requires
        a < 0,
        d > 0,
    ensures
        a / d == -(((-a) + d - 1) / d),
{
    let n = (-a) + d - 1;
    lemma_fundamental_div_mod(n, d);
    let q = n / d;
    let r = n % d;
    assert(a == (-q) * d + (d - 1 - r)) by (nonlinear_arith)
        requires
            n == d * q + r,
            n == (-a) + d - 1,
    ;
    vstd::arithmetic::div_mod::lemma_fundamental_div_mod_converse(a, d, -q, d - 1 - r);
}

/// `a / d` rounded towards negative infinity.
pub fn floor_div_i128(a: i128, d: i128) -> (r: i128)
    requires
        0 < d <= 0x1_0000_0000_0000_0000,
        -0x1000_0000_0000_0000_0000_0000_0000 <= a <= 0x1000_0000_0000_0000_0000_0000_0000,
    ensures
        r == floor_div(a as int, d as int),
        -0x1000_0000_0000_0000_0000_0000_0000 <= r <= 0x1000_0000_0000_0000_0000_0000_0000,
{
    if a >= 0 {
        proof {
            assert(0 <= a / d <= a) by (nonlinear_arith)
                requires
                    d > 0,
                    a >= 0,
            ;
        }
        a / d
    } else {
        proof {
            lemma_div_neg(a as int, d as int);
            assert(0 <= ((-a) + d - 1) / (d as int) <= -a) by (nonlinear_arith)
                requires
                    d > 0,
                    -a >= 1,
            ;
        }
        let q = ((-a) + d - 1) / d;
        -q
    }
}

/// `a / d` rounded towards positive infinity.
pub fn ceil_div_i128(a: i128, d: i128) -> (r: i128)
    requires
        0 < d <= 0x1_0000_0000_0000_0000,
        -0x1000_0000_0000_0000_0000_0000_0000 <= a <= 0x1000_0000_0000_0000_0000_0000_0000,
    ensures
        r == ceil_div(a as int, d as int),
{
    let q = floor_div_i128(-a, d);
    -q
}

/// The integer square root: the largest `r` with `r * r <= n`.
pub open spec fn int_sqrt(n: nat) -> nat
    decreases n,
{
    if n == 0 {
        0
    } else {
        let r = int_sqrt((n - 1) as nat);
        if (r + 1) * (r + 1) <= n {
            r + 1
        } else {
            r
        }
    }
}

pub proof fn lemma_int_sqrt_brackets(n: nat)
    ensures
        int_sqrt(n) * int_sqrt(n) <= n < (int_sqrt(n) + 1) * (int_sqrt(n) + 1),
    decreases n,
{
    if n > 0 {
        lemma_int_sqrt_brackets((n - 1) as nat);
        let r = int_sqrt((n - 1) as nat);
        let s = int_sqrt(n);
        if (r + 1) * (r + 1) <= n {
            assert(s == r + 1);
            assert(n < (s + 1) * (s + 1)) by (nonlinear_arith)
                requires
                    n - 1 < (r + 1) * (r + 1),
                    s == r + 1,
                    r >= 0,
            ;
        } else {
            assert(s == r);
        }
    } else {
        let s = int_sqrt(n);
        assert(s * s == 0 && (s + 1) * (s + 1) == 1) by (nonlinear_arith)
            requires
                s == 0,
        ;
    }
}

proof fn lemma_int_sqrt_unique(n: nat, r: nat)
    requires
        r * r <= n < (r + 1) * (r + 1),
    ensures
        r == int_sqrt(n),
{
    lemma_int_sqrt_brackets(n);
    let s = int_sqrt(n);
    if r < s {
        assert((r + 1) * (r + 1) <= s * s) by (nonlinear_arith)
            requires
                r + 1 <= s,
                r >= 0,
        ;
    } else if s < r {
        assert((s + 1) * (s + 1) <= r * r) by (nonlinear_arith)
            requires
                s + 1 <= r,
                s >= 0,
        ;
    }
}

/// The integer square root of `n`, by bisection.
pub fn isqrt(n: u128) -> (r: u64)
    requires
        n < 0x4_0000_0000_0000_0000,
    ensures
        r == int_sqrt(n as nat),
        r < 0x2_0000_0000,
{
    let mut lo: u64 = 0;
    let mut hi: u64 = 0x2_0000_0000;
    assert(n < (hi as int) * (hi as int));
    while hi - lo > 1
        invariant
            lo < hi <= 0x2_0000_0000,
            (lo as int) * (lo as int) <= n < (hi as int) * (hi as int),
        decreases hi - lo,
    {
        let mid: u64 = lo + (hi - lo) / 2;
        assert((mid as int) * (mid as int) < 0x4_0000_0000_0000_0000) by (nonlinear_arith)
            requires
                mid < 0x2_0000_0000,
        ;
        if (mid as u128) * (mid as u128) <= n {
            lo = mid;
        } else {
            hi = mid;
        }
    }
    proof {
        assert(hi == lo + 1);
        lemma_int_sqrt_unique(n as nat, lo as nat);
    }
    lo
}

} // verus!
