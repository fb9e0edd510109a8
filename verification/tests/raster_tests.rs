use raster::colour::Colour;
use raster::geometry::edge_function;
use raster::geometry::interpolate;
use raster::geometry::Coord;
use raster::geometry::Weights;
use raster::polygon::Polygon;
use raster::raster::rasterise;
use raster::texture::Texture;

fn c(x: i32, y: i32) -> Coord {
    Coord { x, y }
}

/// The demo triangle, pixel vertices (127.5, 32), (32, 224), (224, 224) in
/// sixteenth-of-a-pixel fixed point.
fn demo_vertices() -> [Coord; 3] {
    [c(2040, 512), c(512, 3584), c(3584, 3584)]
}

fn cleared_buffer(fill: u8) -> Vec<u8> {
    vec![fill; 256 * 256 * 4]
}

fn pixel(buf: &[u8], px: usize, py: usize) -> (u8, u8, u8, u8) {
    let i = (py * 256 + px) * 4;
    (buf[i], buf[i + 1], buf[i + 2], buf[i + 3])
}

#[test]
fn black_and_white_values() {
    let b = Colour::black();
    assert_eq!((b.r, b.g, b.b), (0, 0, 0));
    let w = Colour::white();
    assert_eq!((w.r, w.g, w.b), (0xFF, 0xFF, 0xFF));
}

#[test]
fn blend_is_symmetric() {
    let a = Colour { r: 255, g: 0, b: 10 };
    let b = Colour { r: 0, g: 255, b: 11 };
    assert_eq!(a.blend(&b), b.blend(&a));
}

#[test]
fn blend_on_equal_inputs_is_identity() {
    let a = Colour { r: 13, g: 200, b: 77 };
    assert_eq!(a.blend(&a), a);
}

#[test]
fn blend_rounds_toward_zero() {
    let a = Colour { r: 255, g: 0, b: 10 };
    let b = Colour { r: 0, g: 255, b: 11 };
    let m = a.blend(&b);
    assert_eq!((m.r, m.g, m.b), (127, 127, 10));
}

#[test]
fn edge_function_signed_area() {
    // Twice the area of the right triangle (0,0), (0,1), (1,0) in pixels,
    // in squared fixed-point units, positive for this winding.
    let area = edge_function(&c(0, 0), &c(0, 16), &c(16, 0));
    assert_eq!(area, 256);
    // The opposite winding gives the opposite sign.
    let area = edge_function(&c(0, 0), &c(16, 0), &c(0, 16));
    assert_eq!(area, -256);
}

#[test]
fn interpolate_at_vertex_weight_returns_vertex_value() {
    // All of the weight on one vertex, as at that vertex's own coordinate.
    let w = Weights { num: [9, 0, 0], den: 9 };
    assert_eq!(interpolate(&[42, 7, 13], &w), 42);
    let w = Weights { num: [0, 9, 0], den: 9 };
    assert_eq!(interpolate(&[42, 7, 13], &w), 7);
    let w = Weights { num: [0, 0, 9], den: 9 };
    assert_eq!(interpolate(&[42, 7, 13], &w), 13);
}

#[test]
fn interpolate_equal_weights_averages() {
    let w = Weights { num: [1, 1, 1], den: 3 };
    assert_eq!(interpolate(&[0, 30, 60], &w), 30);
    // Rounds down when the exact average is fractional.
    assert_eq!(interpolate(&[0, 0, 100], &w), 33);
}

#[test]
fn bounding_box_covers_vertices() {
    let p = Polygon { vertices: demo_vertices(), colours: None, tex_coords: None };
    let bb = p.bounding_box();
    assert_eq!((bb.min.x, bb.min.y), (512, 512));
    assert_eq!((bb.max.x, bb.max.y), (3584, 3584));
}

#[test]
fn test_inside_interior_point_weights_sum_to_one() {
    let p = Polygon { vertices: demo_vertices(), colours: None, tex_coords: None };
    // The centre pixel of the triangle.
    let w = p.test_inside(&c(2032, 2560)).expect("interior point");
    assert!(w.num[0] >= 0 && w.num[1] >= 0 && w.num[2] >= 0);
    assert!(w.den > 0);
    // The weights sum to exactly one: numerators sum to the denominator.
    assert_eq!(w.num[0] + w.num[1] + w.num[2], w.den);
    // The denominator is twice the triangle's area.
    assert_eq!(w.den, 9437184);
}

#[test]
fn test_inside_outside_point_is_none() {
    let p = Polygon { vertices: demo_vertices(), colours: None, tex_coords: None };
    assert!(p.test_inside(&c(0, 0)).is_none());
    assert!(p.test_inside(&c(2040, 400)).is_none());
    assert!(p.test_inside(&c(3600, 3584)).is_none());
}

#[test]
fn test_inside_edge_point_counts_as_inside() {
    let p = Polygon { vertices: demo_vertices(), colours: None, tex_coords: None };
    // A point on the bottom edge.
    let w = p.test_inside(&c(2048, 3584)).expect("edge point");
    assert_eq!(w.num[0], 0);
}

#[test]
fn test_inside_degenerate_triangle_is_none() {
    // Collinear vertices: zero area, every point classified outside.
    let p = Polygon {
        vertices: [c(0, 0), c(160, 160), c(320, 320)],
        colours: None,
        tex_coords: None,
    };
    assert!(p.test_inside(&c(160, 160)).is_none());
    assert!(p.test_inside(&c(500, 100)).is_none());
}

#[test]
fn checkerboard_layout() {
    let t = Texture::checkerboard();
    assert_eq!((t.x, t.y), (32, 32));
    assert_eq!(t.colours.len(), 1024);
    // First block black, first texel of the next block white.
    assert_eq!(t.colours[0], Colour::black());
    assert_eq!(t.colours[4], Colour::white());
    // One block down is white, two blocks down black again.
    assert_eq!(t.colours[4 * 32], Colour::white());
    assert_eq!(t.colours[8 * 32], Colour::black());
}

#[test]
fn sample_at_origin_is_black_first_block_boundary_white() {
    let t = Texture::checkerboard();
    // Texture-space (0, 0): texel (0, 0), a black block.
    assert_eq!(t.sample(c(0, 0)), Colour::black());
    // Texture-space (4, 0): texel (4, 0), the first white block.
    assert_eq!(t.sample(c(64, 0)), Colour::white());
}

#[test]
fn sample_is_periodic() {
    let t = Texture::checkerboard();
    // One texture width is 32 texels = 512 fixed-point units.
    for &(x, y) in &[(0, 0), (64, 0), (100, 300), (511, 511)] {
        let base = t.sample(c(x, y));
        assert_eq!(t.sample(c(x + 512, y)), base);
        assert_eq!(t.sample(c(x, y + 1024)), base);
        assert_eq!(t.sample(c(x - 512, y - 512)), base);
    }
}

#[test]
fn sample_wraps_negative_coordinates() {
    let t = Texture::checkerboard();
    // Texel -1 wraps to texel 31, in the last block of the row: 31 / 4 = 7,
    // odd, so white.
    assert_eq!(t.sample(c(-16, 0)), Colour::white());
    // A whole width to the left of the origin is the origin again.
    assert_eq!(t.sample(c(-512, 0)), Colour::black());
}

#[test]
fn rasterise_empty_list_leaves_buffer_unchanged() {
    let mut buf = cleared_buffer(7);
    rasterise(&mut buf, &vec![], &Texture::checkerboard());
    assert!(buf.iter().all(|&b| b == 7));
}

#[test]
fn rasterise_degenerate_polygon_paints_nothing() {
    let mut buf = cleared_buffer(7);
    let p = Polygon {
        vertices: [c(0, 0), c(160, 160), c(320, 320)],
        colours: Some([Colour::white(), Colour::white(), Colour::white()]),
        tex_coords: None,
    };
    rasterise(&mut buf, &vec![p], &Texture::checkerboard());
    assert!(buf.iter().all(|&b| b == 7));
}

#[test]
fn rasterise_vertex_colours_centroid_near_average() {
    let mut buf = cleared_buffer(0);
    let p = Polygon {
        vertices: demo_vertices(),
        colours: Some([
            Colour { r: 255, g: 0, b: 0 },
            Colour { r: 0, g: 255, b: 0 },
            Colour { r: 0, g: 0, b: 255 },
        ]),
        tex_coords: None,
    };
    rasterise(&mut buf, &vec![p], &Texture::checkerboard());
    // The pixel nearest the centroid (127.83, 160).
    let (r, g, b, _) = pixel(&buf, 127, 160);
    assert_eq!((r, g, b), (85, 86, 83));
    // Closer to the average of the three vertex colours than to any one.
    let dist2 = |p: (i32, i32, i32), q: (i32, i32, i32)| {
        (p.0 - q.0).pow(2) + (p.1 - q.1).pow(2) + (p.2 - q.2).pow(2)
    };
    let got = (r as i32, g as i32, b as i32);
    let to_avg = dist2(got, (85, 85, 85));
    assert!(to_avg < dist2(got, (255, 0, 0)));
    assert!(to_avg < dist2(got, (0, 255, 0)));
    assert!(to_avg < dist2(got, (0, 0, 255)));
}

#[test]
fn rasterise_leaves_outside_and_alpha_untouched() {
    let mut buf = cleared_buffer(7);
    let p = Polygon {
        vertices: demo_vertices(),
        colours: Some([
            Colour { r: 255, g: 0, b: 0 },
            Colour { r: 0, g: 255, b: 0 },
            Colour { r: 0, g: 0, b: 255 },
        ]),
        tex_coords: None,
    };
    rasterise(&mut buf, &vec![p], &Texture::checkerboard());
    // Pixels outside the triangle's bounding box keep the pre-clear value.
    assert_eq!(pixel(&buf, 0, 0), (7, 7, 7, 7));
    assert_eq!(pixel(&buf, 255, 255), (7, 7, 7, 7));
    assert_eq!(pixel(&buf, 10, 100), (7, 7, 7, 7));
    // An inside pixel is painted, but its alpha byte keeps the old value.
    let (_, _, _, a) = pixel(&buf, 127, 160);
    assert_eq!(a, 7);
    // An outside pixel inside the bounding box is untouched too.
    assert_eq!(pixel(&buf, 40, 40), (7, 7, 7, 7));
}

#[test]
fn rasterise_texture_shows_block_boundaries() {
    let mut buf = cleared_buffer(0);
    let p = Polygon {
        vertices: demo_vertices(),
        colours: None,
        // Texture-space (16, 0), (0, 32), (32, 32) in fixed point.
        tex_coords: Some([c(256, 0), c(0, 512), c(512, 512)]),
    };
    rasterise(&mut buf, &vec![p], &Texture::checkerboard());
    // Along the bottom edge the sampled texel column is (16x - 512) / 96:
    // pixel 55 falls in a black block, pixel 56 just over the boundary in a
    // white one.
    assert_eq!(pixel(&buf, 55, 224).0, 0);
    assert_eq!(pixel(&buf, 55, 224).1, 0);
    assert_eq!(pixel(&buf, 56, 224), (255, 255, 255, 0));
    // Two blocks on, black again.
    assert_eq!(pixel(&buf, 80, 224), (0, 0, 0, 0));
    // The bottom-left vertex maps to texel (0, 0): black.
    assert_eq!(pixel(&buf, 32, 224), (0, 0, 0, 0));
}

#[test]
fn rasterise_blends_colours_with_texture() {
    let mut buf = cleared_buffer(0);
    let p = Polygon {
        vertices: demo_vertices(),
        colours: Some([Colour::white(), Colour::white(), Colour::white()]),
        tex_coords: Some([c(256, 0), c(0, 512), c(512, 512)]),
    };
    rasterise(&mut buf, &vec![p], &Texture::checkerboard());
    // White shade over a black texel averages to mid grey...
    assert_eq!(pixel(&buf, 55, 224), (127, 127, 127, 0));
    // ...and over a white texel stays white.
    assert_eq!(pixel(&buf, 56, 224), (255, 255, 255, 0));
}

#[test]
fn rasterise_without_colours_or_texture_paints_black() {
    let mut buf = cleared_buffer(9);
    let p = Polygon { vertices: demo_vertices(), colours: None, tex_coords: None };
    rasterise(&mut buf, &vec![p], &Texture::checkerboard());
    assert_eq!(pixel(&buf, 127, 160), (0, 0, 0, 9));
}

#[test]
fn rasterise_later_polygon_overwrites_earlier() {
    let mut buf = cleared_buffer(0);
    let red = Colour { r: 255, g: 0, b: 0 };
    let blue = Colour { r: 0, g: 0, b: 255 };
    let first = Polygon {
        vertices: demo_vertices(),
        colours: Some([red, red, red]),
        tex_coords: None,
    };
    let second = Polygon {
        vertices: demo_vertices(),
        colours: Some([blue, blue, blue]),
        tex_coords: None,
    };
    rasterise(&mut buf, &vec![first, second], &Texture::checkerboard());
    let (r, g, b, _) = pixel(&buf, 127, 160);
    assert_eq!((r, g, b), (0, 0, 255));
}
