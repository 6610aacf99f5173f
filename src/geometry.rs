//! Plane vectors, axis-aligned boxes and an integer square root.
use vstd::prelude::*;

verus! {

/// A point or a vector in the plane.
#[derive(Clone, Copy, Debug, PartialEq, Eq, Structural)]
pub struct Vec2 {
    pub x: i64,
    pub y: i64,
}

impl Vec2 {
    pub fn new(x: i64, y: i64) -> (r: Vec2)
        ensures
            r.x == x,
            r.y == y,
    {
        Vec2 { x, y }
    }

    pub fn zero() -> (r: Vec2)
        ensures
            r.x == 0,
            r.y == 0,
    {
        Vec2 { x: 0, y: 0 }
    }
}

/// Two closed intervals given by centre and full length meet with a
/// positive overlap: `|c1 - c2| < (l1 + l2) / 2`, written without halving.
pub open spec fn spans_overlap(c1: int, l1: int, c2: int, l2: int) -> bool {
    2 * c1 - l1 < 2 * c2 + l2 && 2 * c2 - l2 < 2 * c1 + l1
}

/// Boxes centred at `p1`, `p2` with sizes `s1`, `s2` intersect on both axes.
pub open spec fn boxes_overlap(p1: Vec2, s1: Vec2, p2: Vec2, s2: Vec2) -> bool {
    spans_overlap(p1.x as int, s1.x as int, p2.x as int, s2.x as int)
        && spans_overlap(p1.y as int, s1.y as int, p2.y as int, s2.y as int)
}

/// Largest bound on a coordinate or a size for which the overlap test
/// cannot overflow.
pub const COORD_LIMIT: i64 = 0x1000_0000_0000_0000;

pub open spec fn coord_ok(v: i64) -> bool {
    -COORD_LIMIT <= v <= COORD_LIMIT
}

pub open spec fn vec_ok(v: Vec2) -> bool {
    coord_ok(v.x) && coord_ok(v.y)
}

fn span_overlap(c1: i64, l1: i64, c2: i64, l2: i64) -> (r: bool)
    requires
        coord_ok(c1),
        coord_ok(l1),
        coord_ok(c2),
        coord_ok(l2),
    ensures
        r == spans_overlap(c1 as int, l1 as int, c2 as int, l2 as int),
{
    let a1: i128 = 2 * (c1 as i128) - (l1 as i128);
    let b1: i128 = 2 * (c1 as i128) + (l1 as i128);
    let a2: i128 = 2 * (c2 as i128) - (l2 as i128);
    let b2: i128 = 2 * (c2 as i128) + (l2 as i128);
    a1 < b2 && a2 < b1
}

/// Whether the box centred at `p1` of size `s1` and the box centred at `p2`
/// of size `s2` intersect: they overlap on both axes with positive extent,
/// so boxes that only touch along an edge do not collide.
pub fn collide(p1: Vec2, s1: Vec2, p2: Vec2, s2: Vec2) -> (r: bool)
    requires
        vec_ok(p1),
        vec_ok(s1),
        vec_ok(p2),
        vec_ok(s2),
    ensures
        r == boxes_overlap(p1, s1, p2, s2),
{
    span_overlap(p1.x, s1.x, p2.x, s2.x) && span_overlap(p1.y, s1.y, p2.y, s2.y)
}

/// `r` is the integer square root of `n`.
pub open spec fn is_isqrt(n: int, r: int) -> bool {
    0 <= r && r * r <= n < (r + 1) * (r + 1)
}

/// Every non-negative integer has an integer square root.
pub proof fn isqrt_exists(n: int) -> (r: int)
    requires
        n >= 0,
    ensures
        is_isqrt(n, r),
    decreases n,
{
    if n == 0 {
        assert(is_isqrt(0, 0)) by (nonlinear_arith);
        0
    } else {
        let s = isqrt_exists(n - 1);
        if (s + 1) * (s + 1) <= n {
            assert((s + 1) * (s + 1) == n) by (nonlinear_arith)
                requires
                    s * s <= n - 1 < (s + 1) * (s + 1),
                    (s + 1) * (s + 1) <= n,
            ;
            assert(n < ((s + 1) + 1) * ((s + 1) + 1)) by (nonlinear_arith)
                requires
                    (s + 1) * (s + 1) == n,
                    s >= 0,
            ;
            s + 1
        } else {
            s
        }
    }
}

/// The integer square root: the largest `r` with `r * r <= n`.
pub fn isqrt(n: u64) -> (r: u64)
    ensures
        is_isqrt(n as int, r as int),
{
    // Invariant: lo * lo <= n < hi * hi.
    let mut lo: u64 = 0;
    let mut hi: u64 = 0x1_0000_0000;
    assert(n < hi * hi) by (nonlinear_arith)
        requires
            n <= u64::MAX,
            hi == 0x1_0000_0000,
    ;
    while hi - lo > 1
        invariant
            lo < hi <= 0x1_0000_0000,
            lo * lo <= n,
            n < hi * hi,
        decreases hi - lo,
    {
        let mid: u64 = lo + (hi - lo) / 2;
        assert(lo < mid < hi);
        assert(mid * mid <= 0x1_0000_0000u64 * 0x1_0000_0000u64) by (nonlinear_arith)
            requires
                mid < 0x1_0000_0000,
        ;
        let sq: u128 = (mid as u128) * (mid as u128);
        if sq <= n as u128 {
            lo = mid;
        } else {
            hi = mid;
        }
    }
    assert(hi == lo + 1);
    lo
}

} // verus!
