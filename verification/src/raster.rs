use crate::colour::blend_spec;
use crate::colour::Colour;
use crate::geometry::interp_frac;
use crate::geometry::interpolate;
use crate::geometry::lemma_interp_bounds;
use crate::geometry::Coord;
use crate::geometry::Weights;
use crate::polygon::Polygon;
use crate::texture::sample_spec;
use crate::texture::Texture;
use vstd::arithmetic::div_mod::lemma_div_is_ordered;
use vstd::arithmetic::div_mod::lemma_div_multiples_vanish_fancy;
use vstd::arithmetic::div_mod::lemma_mod_multiples_vanish;
use vstd::arithmetic::div_mod::lemma_small_mod;
use vstd::prelude::*;

verus! {

/// The pixel column a flat buffer offset belongs to, for a 256-pixel-wide
/// RGBA8 target: four bytes per pixel, 256 pixels per row.
pub open spec fn byte_px(i: int) -> int {
    (i / 4) % 256
}

/// The pixel row a flat buffer offset belongs to.
pub open spec fn byte_py(i: int) -> int {
    i / 1024
}

/// The channel (0 red, 1 green, 2 blue, 3 alpha) of a flat buffer offset.
pub open spec fn byte_ch(i: int) -> int {
    i % 4
}

pub open spec fn channel_of(c: Colour, ch: int) -> u8 {
    if ch == 0 {
        c.r
    } else if ch == 1 {
        c.g
    } else {
        c.b
    }
}

/// The point at the centre of whole pixel `(px, py)`, in fixed-point units.
pub open spec fn pixel_coord(px: int, py: int) -> Coord {
    Coord { x: (16 * px) as i32, y: (16 * py) as i32 }
}

/// Whether pixel `(px, py)` lies in the scan range of the polygon's
/// bounding box: from the floor of the box's minimum to the ceiling of its
/// maximum, inclusive, in whole pixels.
pub open spec fn in_scan(p: Polygon, px: int, py: int) -> bool {
    &&& p.min_x() / 16 <= px <= (p.max_x() + 15) / 16
    &&& p.min_y() / 16 <= py <= (p.max_y() + 15) / 16
}

/// Whether rasterizing polygon `p` writes pixel `(px, py)`: the pixel is
/// within the 256-by-256 target, within the bounding-box scan of `p`, and
/// its centre passes the barycentric inside-test.
pub open spec fn paints(p: Polygon, px: int, py: int) -> bool {
    &&& 0 <= px < 256
    &&& 0 <= py < 256
    &&& in_scan(p, px, py)
    &&& p.inside_spec(pixel_coord(px, py))
}

/// The colour of the polygon's interpolated colour triple at a pixel, if it
/// has one: each channel interpolated independently under the barycentric
/// weight numerators `n0, n1, n2` with denominator `d`.
pub open spec fn shaded_colour_spec(p: Polygon, n0: int, n1: int, n2: int, d: int) -> Option<
    Colour,
> {
    match p.colours {
        Some(cs) => Some(
            Colour {
                r: interp_frac(cs[0].r as int, cs[1].r as int, cs[2].r as int, n0, n1, n2, d) as u8,
                g: interp_frac(cs[0].g as int, cs[1].g as int, cs[2].g as int, n0, n1, n2, d) as u8,
                b: interp_frac(cs[0].b as int, cs[1].b as int, cs[2].b as int, n0, n1, n2, d) as u8,
            },
        ),
        None => None,
    }
}

/// The texture sample at the polygon's interpolated texture coordinates at a
/// pixel, if it has them: each texture axis interpolated independently, then
/// the texture looked up with wrapping.
pub open spec fn tex_colour_spec(p: Polygon, tex: Texture, n0: int, n1: int, n2: int, d: int) -> Option<
    Colour,
> {
    match p.tex_coords {
        Some(ts) => Some(
            sample_spec(
                tex,
                interp_frac(ts[0].x as int, ts[1].x as int, ts[2].x as int, n0, n1, n2, d),
                interp_frac(ts[0].y as int, ts[1].y as int, ts[2].y as int, n0, n1, n2, d),
            ),
        ),
        None => None,
    }
}

/// The colour polygon `p` paints at pixel `(px, py)`: black when it has
/// neither colours nor texture coordinates, the one of the two that is
/// present, or the 50/50 blend when both are.
pub open spec fn shade_spec(p: Polygon, tex: Texture, px: int, py: int) -> Colour {
    let c = pixel_coord(px, py);
    let n0 = p.wn0(c);
    let n1 = p.wn1(c);
    let n2 = p.wn2(c);
    let d = n0 + n1 + n2;
    match (shaded_colour_spec(p, n0, n1, n2, d), tex_colour_spec(p, tex, n0, n1, n2, d)) {
        (None, None) => Colour { r: 0u8, g: 0u8, b: 0u8 },
        (Some(c), None) => c,
        (None, Some(c)) => c,
        (Some(a), Some(b)) => blend_spec(a, b),
    }
}

/// Whether rasterizing polygon `p` overwrites the buffer byte at offset `i`:
/// a red, green or blue byte of a painted pixel. Alpha bytes are never
/// touched.
pub open spec fn painted_byte(p: Polygon, i: int) -> bool {
    byte_ch(i) < 3 && paints(p, byte_px(i), byte_py(i))
}

/// The buffer after rasterizing one polygon over `buf`: every red, green and
/// blue byte of every painted pixel takes the polygon's shade there, and
/// every other byte keeps its old value.
pub open spec fn paint_one(buf: Seq<u8>, p: Polygon, tex: Texture) -> Seq<u8> {
    Seq::new(
        buf.len(),
        |i: int|
            if painted_byte(p, i) {
                channel_of(shade_spec(p, tex, byte_px(i), byte_py(i)), byte_ch(i))
            } else {
                buf[i]
            },
    )
}

/// The buffer after rasterizing a list of polygons in order over `buf`:
/// painter's algorithm, each polygon painted over the result of all earlier
/// ones, so the last polygon to cover a pixel wins.
pub open spec fn render_spec(buf: Seq<u8>, polys: Seq<Polygon>, tex: Texture) -> Seq<u8>
    decreases polys.len(),
{
    if polys.len() == 0 {
        buf
    } else {
        paint_one(render_spec(buf, polys.drop_last(), tex), polys.last(), tex)
    }
}

/// Scan order over one polygon's pixels: rows top to bottom, columns left to
/// right within a row. `(iy, ix)` is strictly earlier than `(py, px)`.
pub open spec fn scanned_before(iy: int, ix: int, py: int, px: int) -> bool {
    iy < py || (iy == py && ix < px)
}

/// The buffer in the middle of rasterizing one polygon: bytes of painted
/// pixels strictly before scan position `(py, px)` already hold their shade,
/// all other bytes still hold their initial value.
pub open spec fn painted_upto(init: Seq<u8>, p: Polygon, tex: Texture, py: int, px: int) -> Seq<
    u8,
> {
    Seq::new(
        init.len(),
        |i: int|
            if painted_byte(p, i) && scanned_before(byte_py(i), byte_px(i), py, px) {
                channel_of(shade_spec(p, tex, byte_px(i), byte_py(i)), byte_ch(i))
            } else {
                init[i]
            },
    )
}

/// A flat offset into the 256-by-256 RGBA8 buffer decomposes uniquely into
/// row, column and channel.
proof fn lemma_byte_recompose(i: int)
    requires
        0 <= i < 262144,
    ensures
        i == (byte_py(i) * 256 + byte_px(i)) * 4 + byte_ch(i),
        0 <= byte_py(i) < 256,
        0 <= byte_px(i) < 256,
        0 <= byte_ch(i) < 4,
{
    vstd::arithmetic::div_mod::lemma_fundamental_div_mod(i, 4);
    vstd::arithmetic::div_mod::lemma_fundamental_div_mod(i / 4, 256);
    vstd::arithmetic::div_mod::lemma_div_denominator(i, 4, 256);
}

/// The flat offset of channel `ch` of pixel `(px, py)` maps back to exactly
/// that row, column and channel.
proof fn lemma_byte_index(px: int, py: int, ch: int)
    requires
        0 <= px < 256,
        0 <= py < 256,
        0 <= ch < 4,
    ensures
        byte_px((py * 256 + px) * 4 + ch) == px,
        byte_py((py * 256 + px) * 4 + ch) == py,
        byte_ch((py * 256 + px) * 4 + ch) == ch,
{
    let base = py * 256 + px;
    assert((py * 256 + px) * 4 + ch == 4 * base + ch);
    lemma_div_multiples_vanish_fancy(base, ch, 4);
    lemma_mod_multiples_vanish(base, ch, 4);
    lemma_small_mod(ch as nat, 4nat);
    lemma_mod_multiples_vanish(py, px, 256);
    lemma_small_mod(px as nat, 256nat);
    assert(4 * base + ch == 1024 * py + (4 * px + ch));
    lemma_div_multiples_vanish_fancy(py, 4 * px + ch, 1024);
}

/// Before anything is scanned, the buffer is the initial buffer.
proof fn lemma_upto_zero(init: Seq<u8>, p: Polygon, tex: Texture)
    requires
        init.len() == 262144,
    ensures
        painted_upto(init, p, tex, 0, 0) == init,
{
    assert(painted_upto(init, p, tex, 0, 0) =~= init);
}

/// Advancing the scan position over a stretch that paints nothing leaves the
/// partially painted buffer unchanged.
proof fn lemma_upto_advance_empty(
    init: Seq<u8>,
    p: Polygon,
    tex: Texture,
    a_py: int,
    a_px: int,
    b_py: int,
    b_px: int,
)
    requires
        init.len() == 262144,
        a_py < b_py || (a_py == b_py && a_px <= b_px),
        forall|iy: int, ix: int|
            0 <= iy < 256 && 0 <= ix < 256 && scanned_before(iy, ix, b_py, b_px) && !scanned_before(
                iy,
                ix,
                a_py,
                a_px,
            ) ==> !paints(p, ix, iy),
    ensures
        painted_upto(init, p, tex, a_py, a_px) == painted_upto(init, p, tex, b_py, b_px),
{
    assert forall|i: int| 0 <= i < 262144 implies painted_upto(init, p, tex, a_py, a_px)[i]
        == painted_upto(init, p, tex, b_py, b_px)[i] by {
        lemma_byte_recompose(i);
    }
    assert(painted_upto(init, p, tex, a_py, a_px) =~= painted_upto(init, p, tex, b_py, b_px));
}

/// Once every row of the target has been scanned, the partially painted
/// buffer is the fully painted one.
proof fn lemma_upto_full(init: Seq<u8>, p: Polygon, tex: Texture)
    requires
        init.len() == 262144,
    ensures
        painted_upto(init, p, tex, 256, 0) == paint_one(init, p, tex),
{
    assert forall|i: int| 0 <= i < 262144 implies painted_upto(init, p, tex, 256, 0)[i]
        == paint_one(init, p, tex)[i] by {
        lemma_byte_recompose(i);
    }
    assert(painted_upto(init, p, tex, 256, 0) =~= paint_one(init, p, tex));
}

/// The floor of a fixed-point coordinate, in whole pixels.
fn floor16(v: i32) -> (r: i32)
    ensures
        r as int == (v as int) / 16,
{
    proof {
        lemma_div_is_ordered(-0x8000_0000, v as int, 16);
        lemma_div_is_ordered(v as int, 0x7FFF_FFFF, 16);
    }
    match v.checked_div_euclid(16) {
        Some(q) => q,
        None => {
            proof {
                assert(false);
            }
            0
        },
    }
}

/// The ceiling of a fixed-point coordinate, in whole pixels.
fn ceil16(v: i32) -> (r: i32)
    ensures
        r as int == ((v as int) + 15) / 16,
{
    let w: i64 = v as i64 + 15;
    proof {
        lemma_div_is_ordered(-0x8000_0000, w as int, 16);
        lemma_div_is_ordered(w as int, 0x8000_000E, 16);
    }
    match w.checked_div_euclid(16) {
        Some(q) => q as i32,
        None => {
            proof {
                assert(false);
            }
            0
        },
    }
}

/// A scan bound clipped to the start of a row or column range of the target.
pub open spec fn clamp_lo(v: int) -> int {
    if v < 0 {
        0
    } else if v > 256 {
        256
    } else {
        v
    }
}

/// A scan bound clipped to the last row or column of the target.
pub open spec fn clamp_hi(v: int) -> int {
    if v > 255 {
        255
    } else {
        v
    }
}

/// The colour one polygon paints at one pixel, from the barycentric weights
/// of the pixel's centre: interpolate the colour triple if present, sample
/// the texture at the interpolated texture coordinates if present, and
/// combine the two.
fn shade_at(p: &Polygon, texture: &Texture, w: &Weights, gpx: Ghost<int>, gpy: Ghost<int>) -> (r:
    Colour)
    requires
        texture.wf(),
        w.wf(),
        w.num[0] as int == p.wn0(pixel_coord(gpx@, gpy@)),
        w.num[1] as int == p.wn1(pixel_coord(gpx@, gpy@)),
        w.num[2] as int == p.wn2(pixel_coord(gpx@, gpy@)),
    ensures
        r == shade_spec(*p, *texture, gpx@, gpy@),
{
    let shaded: Option<Colour> = match p.colours {
        Some(cs) => {
            proof {
                lemma_interp_bounds(cs[0].r as int, cs[1].r as int, cs[2].r as int, *w, 0, 255);
                lemma_interp_bounds(cs[0].g as int, cs[1].g as int, cs[2].g as int, *w, 0, 255);
                lemma_interp_bounds(cs[0].b as int, cs[1].b as int, cs[2].b as int, *w, 0, 255);
            }
            let rv = interpolate(&[cs[0].r as i32, cs[1].r as i32, cs[2].r as i32], w);
            let gv = interpolate(&[cs[0].g as i32, cs[1].g as i32, cs[2].g as i32], w);
            let bv = interpolate(&[cs[0].b as i32, cs[1].b as i32, cs[2].b as i32], w);
            Some(Colour { r: rv as u8, g: gv as u8, b: bv as u8 })
        },
        None => None,
    };
    let texed: Option<Colour> = match p.tex_coords {
        Some(ts) => {
            let sx = interpolate(&[ts[0].x, ts[1].x, ts[2].x], w);
            let sy = interpolate(&[ts[0].y, ts[1].y, ts[2].y], w);
            Some(texture.sample(Coord { x: sx, y: sy }))
        },
        None => None,
    };
    match (shaded, texed) {
        (None, None) => Colour::black(),
        (Some(sc), None) => sc,
        (None, Some(tc)) => tc,
        (Some(sa), Some(tb)) => sa.blend(&tb),
    }
}

/// Rasterize one polygon into the buffer: scan the pixels of its bounding
/// box, clipped to the target, and paint every pixel whose centre lies
/// inside the triangle.
fn raster_polygon(out: &mut Vec<u8>, p: &Polygon, texture: &Texture)
    requires
        old(out).len() == 262144,
        texture.wf(),
    ensures
        final(out)@ == paint_one(old(out)@, *p, *texture),
        final(out).len() == 262144,
{
    let ghost init = out@;
    let bb = p.bounding_box();
    let x0i = floor16(bb.min.x);
    let x1i = ceil16(bb.max.x);
    let y0i = floor16(bb.min.y);
    let y1i = ceil16(bb.max.y);
    proof {
        lemma_div_is_ordered(p.min_x(), p.max_x(), 16);
        lemma_div_is_ordered(p.max_x(), p.max_x() + 15, 16);
        lemma_div_is_ordered(p.min_y(), p.max_y(), 16);
        lemma_div_is_ordered(p.max_y(), p.max_y() + 15, 16);
    }
    let x_lo: i32 = if x0i < 0 {
        0
    } else if x0i > 256 {
        256
    } else {
        x0i
    };
    let x_hi: i32 = if x1i > 255 {
        255
    } else {
        x1i
    };
    let y_lo: i32 = if y0i < 0 {
        0
    } else if y0i > 256 {
        256
    } else {
        y0i
    };
    let y_hi: i32 = if y1i > 255 {
        255
    } else {
        y1i
    };
    proof {
        lemma_upto_zero(init, *p, *texture);
        lemma_upto_advance_empty(init, *p, *texture, 0, 0, y_lo as int, 0);
    }
    let mut y: i32 = y_lo;
    while y <= y_hi
        invariant
            out.len() == 262144,
            init.len() == 262144,
            texture.wf(),
            y_lo <= y <= y_hi + 1 || y == y_lo,
            0 <= y_lo <= 256,
            y_hi <= 255,
            0 <= x_lo <= 256,
            x_hi <= 255,
            x_lo as int == clamp_lo(p.min_x() / 16),
            x_hi as int == clamp_hi((p.max_x() + 15) / 16),
            y_lo as int == clamp_lo(p.min_y() / 16),
            y_hi as int == clamp_hi((p.max_y() + 15) / 16),
            p.min_x() / 16 <= (p.max_x() + 15) / 16,
            p.min_y() / 16 <= (p.max_y() + 15) / 16,
            out@ == painted_upto(init, *p, *texture, y as int, 0),
        decreases 256 - y,
    {
        proof {
            lemma_upto_advance_empty(init, *p, *texture, y as int, 0, y as int, x_lo as int);
        }
        let mut x: i32 = x_lo;
        while x <= x_hi
            invariant
                out.len() == 262144,
                init.len() == 262144,
                texture.wf(),
                x_lo <= x <= x_hi + 1 || x == x_lo,
                0 <= x_lo <= 256,
                x_hi <= 255,
                0 <= y <= 255,
                x_lo as int == clamp_lo(p.min_x() / 16),
                x_hi as int == clamp_hi((p.max_x() + 15) / 16),
                y_lo as int == clamp_lo(p.min_y() / 16),
                y_hi as int == clamp_hi((p.max_y() + 15) / 16),
                y_lo <= y <= y_hi,
                out@ == painted_upto(init, *p, *texture, y as int, x as int),
            decreases 256 - x,
        {
            let c = Coord { x: 16 * x, y: 16 * y };
            let ghost gpx = x as int;
            let ghost gpy = y as int;
            proof {
                assert(c == pixel_coord(gpx, gpy));
            }
            match p.test_inside(&c) {
                None => {
                    proof {
                        assert(!p.inside_spec(pixel_coord(gpx, gpy)));
                        lemma_upto_advance_empty(init, *p, *texture, gpy, gpx, gpy, gpx + 1);
                    }
                },
                Some(w) => {
                    proof {
                        crate::polygon::lemma_weight_sum_is_area(*p, c);
                    }
                    let blended = shade_at(p, texture, &w, Ghost(gpx), Ghost(gpy));
                    let ghost prev = out@;
                    let idx: usize = ((y as usize) * 256 + (x as usize)) * 4;
                    out[idx] = blended.r;
                    out[idx + 1] = blended.g;
                    out[idx + 2] = blended.b;
                    proof {
                        lemma_byte_index(gpx, gpy, 0);
                        lemma_byte_index(gpx, gpy, 1);
                        lemma_byte_index(gpx, gpy, 2);
                        assert(paints(*p, gpx, gpy));
                        assert forall|i: int| 0 <= i < 262144 implies painted_upto(
                            init,
                            *p,
                            *texture,
                            gpy,
                            gpx + 1,
                        )[i] == out@[i] by {
                            lemma_byte_recompose(i);
                            if byte_py(i) == gpy && byte_px(i) == gpx && byte_ch(i) < 3 {
                                assert(i == idx + byte_ch(i));
                            } else {
                                assert(out@[i] == prev[i]);
                            }
                        }
                        assert(out@ =~= painted_upto(init, *p, *texture, gpy, gpx + 1));
                    }
                },
            }
            x = x + 1;
        }
        proof {
            lemma_upto_advance_empty(init, *p, *texture, y as int, x as int, y as int + 1, 0);
        }
        y = y + 1;
    }
    proof {
        lemma_upto_advance_empty(init, *p, *texture, y as int, 0, 256, 0);
        lemma_upto_full(init, *p, *texture);
    }
}

/// Rasterize a list of polygons into the 256-by-256 RGBA8 buffer `out`, in
/// list order with no depth test: a later polygon's pixels overwrite an
/// earlier polygon's. Only the red, green and blue bytes of covered pixels
/// are written; alpha bytes and uncovered pixels keep their old values.
pub fn rasterise(out: &mut Vec<u8>, polygons: &Vec<Polygon>, texture: &Texture)
    requires
        old(out).len() == 262144,
        texture.wf(),
    ensures
        final(out)@ == render_spec(old(out)@, polygons@, *texture),
        final(out).len() == 262144,
{
    let ghost init = out@;
    let mut k: usize = 0;
    while k < polygons.len()
        invariant
            out.len() == 262144,
            init.len() == 262144,
            texture.wf(),
            k <= polygons.len(),
            out@ == render_spec(init, polygons@.take(k as int), *texture),
        decreases polygons.len() - k,
    {
        raster_polygon(out, &polygons[k], texture);
        proof {
            let taken = polygons@.take(k as int + 1);
            assert(taken.drop_last() =~= polygons@.take(k as int));
            assert(taken.last() == polygons@[k as int]);
        }
        k = k + 1;
    }
    proof {
        assert(polygons@.take(polygons@.len() as int) =~= polygons@);
    }
}

} // verus!
