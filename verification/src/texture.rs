use crate::colour::Colour;
use crate::geometry::Coord;
use vstd::arithmetic::div_mod::lemma_div_is_ordered;
use vstd::arithmetic::div_mod::lemma_hoist_over_denominator;
use vstd::arithmetic::div_mod::lemma_mod_multiples_vanish;
use vstd::prelude::*;

verus! {

/// An immutable 2D grid of colours, stored row-major as a flat list of
/// length `x * y`. Sampling wraps around both axes, so the texture tiles the
/// whole plane periodically.
#[derive(Clone, Debug)]
pub struct Texture {
    pub x: usize,
    pub y: usize,
    pub colours: Vec<Colour>,
}

impl Texture {
    /// A usable texture: both dimensions are positive (sampling a zero-sized
    /// texture is undefined), small enough for exact index arithmetic, and
    /// the flat grid holds exactly one colour per cell.
    pub open spec fn wf(self) -> bool {
        &&& 0 < self.x <= 0x7FFF_FFFF
        &&& 0 < self.y <= 0x7FFF_FFFF
        &&& self.colours.len() == self.x * self.y
    }
}

/// The colour a texture shows at fixed-point texture-space coordinates
/// `(x, y)`: the coordinate is rounded down to a whole texel, wrapped on each
/// axis by the texture's size, and looked up in the flat grid.
pub open spec fn sample_spec(t: Texture, x: int, y: int) -> Colour {
    let tx = (x / 16) % (t.x as int);
    let ty = (y / 16) % (t.y as int);
    t.colours[ty * (t.x as int) + tx]
}

impl Texture {
    /// Look the texture up at `c`, wrapping out-of-range coordinates so the
    /// texture repeats periodically over the whole plane.
    pub fn sample(&self, c: Coord) -> (r: Colour)
        requires
            self.wf(),
        ensures
            r == sample_spec(*self, c.x as int, c.y as int),
    {
        proof {
            lemma_div_is_ordered(-0x8000_0000, c.x as int, 16);
            lemma_div_is_ordered(c.x as int, 0x7FFF_FFFF, 16);
            lemma_div_is_ordered(-0x8000_0000, c.y as int, 16);
            lemma_div_is_ordered(c.y as int, 0x7FFF_FFFF, 16);
        }
        let qx: i32 = match c.x.checked_div_euclid(16) {
            Some(v) => v,
            None => {
                proof {
                    assert(false);
                }
                0
            },
        };
        let qy: i32 = match c.y.checked_div_euclid(16) {
            Some(v) => v,
            None => {
                proof {
                    assert(false);
                }
                0
            },
        };
        let wdt: i64 = self.x as i64;
        let hgt: i64 = self.y as i64;
        let tx: i64 = match (qx as i64).checked_rem_euclid(wdt) {
            Some(v) => v,
            None => {
                proof {
                    assert(false);
                }
                0
            },
        };
        let ty: i64 = match (qy as i64).checked_rem_euclid(hgt) {
            Some(v) => v,
            None => {
                proof {
                    assert(false);
                }
                0
            },
        };
        proof {
            assert((ty as int) * (self.x as int) + tx < (self.x as int) * (self.y as int))
                by (nonlinear_arith)
                requires
                    0 <= ty < self.y as int,
                    0 <= tx < self.x as int,
            ;
        }
        let idx: usize = (ty as usize) * self.x + (tx as usize);
        self.colours[idx]
    }

    /// The colour of cell `i` of the canonical checkerboard fixture: the
    /// 32-by-32 grid is divided into 4-by-4 texel blocks, and a block is
    /// black when the sum of its block coordinates is even, white otherwise.
    pub open spec fn checker_colour(i: int) -> Colour {
        if ((i % 32) / 4 + (i / 32) / 4) % 2 == 0 {
            Colour { r: 0u8, g: 0u8, b: 0u8 }
        } else {
            Colour { r: 0xFFu8, g: 0xFFu8, b: 0xFFu8 }
        }
    }

    /// The canonical 32-by-32 test texture of alternating black and white
    /// 4-by-4 blocks.
    pub fn checkerboard() -> (r: Texture)
        ensures
            r.x == 32,
            r.y == 32,
            r.wf(),
            forall|i: int| 0 <= i < 1024 ==> r.colours[i] == Texture::checker_colour(i),
    {
        let mut colours: Vec<Colour> = Vec::new();
        let mut pos: usize = 0;
        while pos < 1024
            invariant
                pos <= 1024,
                colours.len() == pos,
                forall|i: int| 0 <= i < pos ==> colours[i] == Texture::checker_colour(i),
            decreases 1024 - pos,
        {
            let x_quad: usize = (pos % 32) / 4;
            let y_quad: usize = (pos / 32) / 4;
            let cell = if (x_quad + y_quad) % 2 == 0 {
                Colour::black()
            } else {
                Colour::white()
            };
            colours.push(cell);
            pos = pos + 1;
        }
        Texture { x: 32, y: 32, colours }
    }
}

/// Texture sampling is periodic: moving any whole number of texture widths
/// along one axis and texture heights along the other lands on the same
/// colour. One texel is 16 fixed-point units, so the period is `16 * x`
/// units horizontally and `16 * y` units vertically.
pub proof fn lemma_sample_periodic(t: Texture, x: int, y: int, k: int, m: int)
    requires
        t.wf(),
    ensures
        sample_spec(t, x + k * (16 * t.x as int), y + m * (16 * t.y as int)) == sample_spec(t, x, y),
{
    let tx = t.x as int;
    let ty = t.y as int;
    assert(k * (16 * tx) == (k * tx) * 16) by (nonlinear_arith);
    assert(m * (16 * ty) == (m * ty) * 16) by (nonlinear_arith);
    lemma_hoist_over_denominator(x, k * tx, 16nat);
    lemma_hoist_over_denominator(y, m * ty, 16nat);
    assert((x + (k * tx) * 16) / 16 == x / 16 + k * tx);
    lemma_mod_multiples_vanish(k, x / 16, tx);
    lemma_mod_multiples_vanish(m, y / 16, ty);
    assert(tx * k + x / 16 == x / 16 + k * tx) by (nonlinear_arith);
    assert(ty * m + y / 16 == y / 16 + m * ty) by (nonlinear_arith);
}

} // verus!
