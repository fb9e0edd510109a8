use vstd::arithmetic::div_mod::lemma_div_is_ordered;
use vstd::arithmetic::div_mod::lemma_div_multiples_vanish;
use vstd::prelude::*;

verus! {

/// A 2D point in fixed-point pixel-space coordinates: each unit is one
/// sixteenth of a pixel, so a whole pixel coordinate `p` is stored as `16 * p`.
/// Used both as a vertex position and as a texture-space coordinate.
#[derive(Clone, Copy, PartialEq, Eq, Structural, Debug)]
pub struct Coord {
    pub x: i32,
    pub y: i32,
}

impl Coord {
    pub fn new(x: i32, y: i32) -> (r: Coord)
        ensures
            r == (Coord { x, y }),
    {
        Coord { x, y }
    }

    /// The point at the centre of whole pixel `(px, py)`.
    pub fn from_pixel(px: i32, py: i32) -> (r: Coord)
        requires
            -0x800_0000 <= px < 0x800_0000,
            -0x800_0000 <= py < 0x800_0000,
        ensures
            r == (Coord { x: (16 * px) as i32, y: (16 * py) as i32 }),
    {
        Coord { x: 16 * px, y: 16 * py }
    }
}

/// The 2D cross product of the vectors `a -> b` and `a -> c`. Its sign says
/// on which side of the directed line `a -> b` the point `c` lies, and its
/// magnitude is twice the area of the triangle `a, b, c` (in squared
/// fixed-point units).
pub open spec fn edge_spec(a: Coord, b: Coord, c: Coord) -> int {
    (c.x - a.x) * (b.y - a.y) - (c.y - a.y) * (b.x - a.x)
}

/// Twice the signed area of any triangle is below this bound, because every
/// coordinate difference is below `2^32` in magnitude.
pub open spec fn edge_limit() -> int {
    0x2_0000_0000_0000_0000_0
}

proof fn lemma_abs_mul_bound(x: int, y: int, m: int, n: int)
    requires
        -m <= x <= m,
        -n <= y <= n,
        0 <= m,
        0 <= n,
    ensures
        -(m * n) <= x * y <= m * n,
{
    assert(-(m * n) <= x * y <= m * n) by (nonlinear_arith)
        requires
            -m <= x <= m,
            -n <= y <= n,
            0 <= m,
            0 <= n,
    ;
}

/// The edge function of any three points stays well inside `i128` range.
pub proof fn lemma_edge_bound(a: Coord, b: Coord, c: Coord)
    ensures
        -edge_limit() < edge_spec(a, b, c) < edge_limit(),
{
    lemma_abs_mul_bound(c.x - a.x, b.y - a.y, 0xFFFF_FFFF, 0xFFFF_FFFF);
    lemma_abs_mul_bound(c.y - a.y, b.x - a.x, 0xFFFF_FFFF, 0xFFFF_FFFF);
}

/// Cross product of the vectors `a -> b` and `a -> c`; see [`edge_spec`].
pub fn edge_function(a: &Coord, b: &Coord, c: &Coord) -> (r: i128)
    ensures
        r as int == edge_spec(*a, *b, *c),
        -edge_limit() < r < edge_limit(),
{
    proof {
        lemma_edge_bound(*a, *b, *c);
        lemma_abs_mul_bound(c.x - a.x, b.y - a.y, 0xFFFF_FFFF, 0xFFFF_FFFF);
        lemma_abs_mul_bound(c.y - a.y, b.x - a.x, 0xFFFF_FFFF, 0xFFFF_FFFF);
    }
    let x: i128 = (c.x as i128 - a.x as i128) * (b.y as i128 - a.y as i128);
    let y: i128 = (c.y as i128 - a.y as i128) * (b.x as i128 - a.x as i128);
    x - y
}

/// Barycentric weights of a point with respect to a triangle, kept exact as
/// three integer numerators over a common positive denominator (twice the
/// triangle's area). The weight of vertex `i` is `num[i] / den`.
#[derive(Clone, Copy, PartialEq, Eq, Debug)]
pub struct Weights {
    pub num: [i128; 3],
    pub den: i128,
}

impl Weights {
    /// Exact barycentric weights of an interior point: all three weights are
    /// non-negative and they sum to exactly one (`num` sums to `den`).
    pub open spec fn wf(self) -> bool {
        &&& 0 <= self.num[0]
        &&& 0 <= self.num[1]
        &&& 0 <= self.num[2]
        &&& 0 < self.den < 3 * edge_limit()
        &&& self.num[0] + self.num[1] + self.num[2] == self.den
    }
}

/// The exact weighted combination `(v0*n0 + v1*n1 + v2*n2) / den`, rounded
/// down to an integer.
pub open spec fn interp_frac(v0: int, v1: int, v2: int, n0: int, n1: int, n2: int, den: int) -> int {
    (v0 * n0 + v1 * n1 + v2 * n2) / den
}

/// [`interp_frac`] applied to a weight triple.
pub open spec fn interp_spec(v0: int, v1: int, v2: int, w: Weights) -> int {
    interp_frac(v0, v1, v2, w.num[0] as int, w.num[1] as int, w.num[2] as int, w.den as int)
}

/// A weighted combination with well-formed barycentric weights never leaves
/// the interval spanned by the three values.
pub proof fn lemma_interp_bounds(v0: int, v1: int, v2: int, w: Weights, lo: int, hi: int)
    requires
        w.wf(),
        lo <= v0 <= hi,
        lo <= v1 <= hi,
        lo <= v2 <= hi,
    ensures
        lo <= interp_spec(v0, v1, v2, w) <= hi,
{
    let n0 = w.num[0] as int;
    let n1 = w.num[1] as int;
    let n2 = w.num[2] as int;
    let d = w.den as int;
    let s = v0 * n0 + v1 * n1 + v2 * n2;
    assert(d * lo <= v0 * n0 + v1 * n1 + v2 * n2 <= d * hi) by (nonlinear_arith)
        requires
            0 <= n0 && 0 <= n1 && 0 <= n2,
            n0 + n1 + n2 == d,
            lo <= v0 <= hi,
            lo <= v1 <= hi,
            lo <= v2 <= hi,
    ;
    lemma_div_is_ordered(d * lo, s, d);
    lemma_div_is_ordered(s, d * hi, d);
    lemma_div_multiples_vanish(lo, d);
    lemma_div_multiples_vanish(hi, d);
}

/// A vertex's own weight triple returns exactly that vertex's value: when all
/// of the weight sits on one index, interpolation is the identity there.
pub proof fn lemma_interp_at_vertex(v0: int, v1: int, v2: int, w: Weights)
    requires
        w.wf(),
    ensures
        w.num[0] == w.den ==> interp_spec(v0, v1, v2, w) == v0,
        w.num[1] == w.den ==> interp_spec(v0, v1, v2, w) == v1,
        w.num[2] == w.den ==> interp_spec(v0, v1, v2, w) == v2,
{
    let n0 = w.num[0] as int;
    let n1 = w.num[1] as int;
    let n2 = w.num[2] as int;
    let d = w.den as int;
    if w.num[0] == w.den {
        assert(v0 * n0 + v1 * n1 + v2 * n2 == d * v0) by (nonlinear_arith)
            requires
                n0 == d && n1 == 0 && n2 == 0,
        ;
        lemma_div_multiples_vanish(v0, d);
    }
    if w.num[1] == w.den {
        assert(v0 * n0 + v1 * n1 + v2 * n2 == d * v1) by (nonlinear_arith)
            requires
                n1 == d && n0 == 0 && n2 == 0,
        ;
        lemma_div_multiples_vanish(v1, d);
    }
    if w.num[2] == w.den {
        assert(v0 * n0 + v1 * n1 + v2 * n2 == d * v2) by (nonlinear_arith)
            requires
                n2 == d && n0 == 0 && n1 == 0,
        ;
        lemma_div_multiples_vanish(v2, d);
    }
}

/// The weighted sum of three values under barycentric weights, divided by the
/// common denominator and rounded down: the interpolated value at a point.
pub fn interpolate(vals: &[i32; 3], w: &Weights) -> (r: i32)
    requires
        w.wf(),
    ensures
        r as int == interp_spec(vals[0] as int, vals[1] as int, vals[2] as int, *w),
{
    proof {
        lemma_abs_mul_bound(vals[0] as int, w.num[0] as int, 0x8000_0000, 3 * edge_limit());
        lemma_abs_mul_bound(vals[1] as int, w.num[1] as int, 0x8000_0000, 3 * edge_limit());
        lemma_abs_mul_bound(vals[2] as int, w.num[2] as int, 0x8000_0000, 3 * edge_limit());
    }
    let s: i128 = (vals[0] as i128) * w.num[0] + (vals[1] as i128) * w.num[1] + (vals[2] as i128)
        * w.num[2];
    proof {
        lemma_interp_bounds(
            vals[0] as int,
            vals[1] as int,
            vals[2] as int,
            *w,
            -0x8000_0000,
            0x7FFF_FFFF,
        );
    }
    let q: Option<i128> = s.checked_div_euclid(w.den);
    match q {
        Some(v) => v as i32,
        None => {
            proof {
                assert(false);
            }
            0
        },
    }
}

} // verus!
