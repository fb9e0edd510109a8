use crate::colour::Colour;
use crate::geometry::edge_function;
use crate::geometry::edge_limit;
use crate::geometry::edge_spec;
use crate::geometry::Coord;
use crate::geometry::Weights;
use vstd::prelude::*;

verus! {

/// A filled triangle: exactly three vertices, an optional parallel triple of
/// per-vertex colours, and an optional parallel triple of per-vertex
/// texture-space coordinates.
#[derive(Clone, Copy, Debug)]
pub struct Polygon {
    pub vertices: [Coord; 3],
    pub colours: Option<[Colour; 3]>,
    pub tex_coords: Option<[Coord; 3]>,
}

/// The axis-aligned box covering a polygon's three vertices.
#[derive(Clone, Copy, PartialEq, Eq, Structural, Debug)]
pub struct BoundingBox {
    pub min: Coord,
    pub max: Coord,
}

pub open spec fn min3(a: int, b: int, c: int) -> int {
    if a <= b && a <= c {
        a
    } else if b <= c {
        b
    } else {
        c
    }
}

pub open spec fn max3(a: int, b: int, c: int) -> int {
    if a >= b && a >= c {
        a
    } else if b >= c {
        b
    } else {
        c
    }
}

impl Polygon {
    /// Barycentric numerator of vertex 0: the edge value of the opposite
    /// edge, from vertex 1 to vertex 2, at `c`.
    pub open spec fn wn0(self, c: Coord) -> int {
        edge_spec(self.vertices[1], self.vertices[2], c)
    }

    /// Barycentric numerator of vertex 1: the edge value of the edge from
    /// vertex 2 to vertex 0, at `c`.
    pub open spec fn wn1(self, c: Coord) -> int {
        edge_spec(self.vertices[2], self.vertices[0], c)
    }

    /// Barycentric numerator of vertex 2: the edge value of the edge from
    /// vertex 0 to vertex 1, at `c`.
    pub open spec fn wn2(self, c: Coord) -> int {
        edge_spec(self.vertices[0], self.vertices[1], c)
    }

    /// Twice the polygon's signed area, by the edge function of its vertices.
    pub open spec fn area2(self) -> int {
        edge_spec(self.vertices[0], self.vertices[1], self.vertices[2])
    }

    /// A point counts as inside when it is on the non-negative side of all
    /// three directed edges and the triangle is not degenerate. Points
    /// exactly on an edge are inside; every point of a zero-area triangle is
    /// outside.
    pub open spec fn inside_spec(self, c: Coord) -> bool {
        &&& self.wn0(c) >= 0
        &&& self.wn1(c) >= 0
        &&& self.wn2(c) >= 0
        &&& self.wn0(c) + self.wn1(c) + self.wn2(c) > 0
    }

    pub open spec fn min_x(self) -> int {
        min3(self.vertices[0].x as int, self.vertices[1].x as int, self.vertices[2].x as int)
    }

    pub open spec fn min_y(self) -> int {
        min3(self.vertices[0].y as int, self.vertices[1].y as int, self.vertices[2].y as int)
    }

    pub open spec fn max_x(self) -> int {
        max3(self.vertices[0].x as int, self.vertices[1].x as int, self.vertices[2].x as int)
    }

    pub open spec fn max_y(self) -> int {
        max3(self.vertices[0].y as int, self.vertices[1].y as int, self.vertices[2].y as int)
    }

    /// The per-axis minimum and maximum over the three vertices.
    pub fn bounding_box(&self) -> (r: BoundingBox)
        ensures
            r.min.x as int == self.min_x(),
            r.min.y as int == self.min_y(),
            r.max.x as int == self.max_x(),
            r.max.y as int == self.max_y(),
    {
        let mut min = self.vertices[0];
        let mut max = self.vertices[0];
        let mut i: usize = 1;
        while i < 3
            invariant
                1 <= i <= 3,
                min.x as int == min3(
                    self.vertices[0].x as int,
                    if i >= 2 {
                        self.vertices[1].x as int
                    } else {
                        self.vertices[0].x as int
                    },
                    if i >= 3 {
                        self.vertices[2].x as int
                    } else {
                        self.vertices[0].x as int
                    },
                ),
                min.y as int == min3(
                    self.vertices[0].y as int,
                    if i >= 2 {
                        self.vertices[1].y as int
                    } else {
                        self.vertices[0].y as int
                    },
                    if i >= 3 {
                        self.vertices[2].y as int
                    } else {
                        self.vertices[0].y as int
                    },
                ),
                max.x as int == max3(
                    self.vertices[0].x as int,
                    if i >= 2 {
                        self.vertices[1].x as int
                    } else {
                        self.vertices[0].x as int
                    },
                    if i >= 3 {
                        self.vertices[2].x as int
                    } else {
                        self.vertices[0].x as int
                    },
                ),
                max.y as int == max3(
                    self.vertices[0].y as int,
                    if i >= 2 {
                        self.vertices[1].y as int
                    } else {
                        self.vertices[0].y as int
                    },
                    if i >= 3 {
                        self.vertices[2].y as int
                    } else {
                        self.vertices[0].y as int
                    },
                ),
            decreases 3 - i,
        {
            let vertex = self.vertices[i];
            if vertex.x < min.x {
                min.x = vertex.x;
            }
            if vertex.y < min.y {
                min.y = vertex.y;
            }
            if vertex.x > max.x {
                max.x = vertex.x;
            }
            if vertex.y > max.y {
                max.y = vertex.y;
            }
            i = i + 1;
        }
        BoundingBox { min, max }
    }

    /// The barycentric inside-test. Returns the exact barycentric weights of
    /// `coord` when it lies inside the triangle (points exactly on an edge
    /// included), and nothing when it lies outside or the triangle is
    /// degenerate. The returned numerators are the three opposite-edge
    /// values and their common denominator is twice the triangle's area.
    pub fn test_inside(&self, coord: &Coord) -> (r: Option<Weights>)
        ensures
            r.is_some() <==> self.inside_spec(*coord),
            r.is_some() ==> {
                &&& r.unwrap().wf()
                &&& r.unwrap().num[0] as int == self.wn0(*coord)
                &&& r.unwrap().num[1] as int == self.wn1(*coord)
                &&& r.unwrap().num[2] as int == self.wn2(*coord)
                &&& r.unwrap().den as int == self.area2()
            },
    {
        let w0 = edge_function(&self.vertices[1], &self.vertices[2], coord);
        let w1 = edge_function(&self.vertices[2], &self.vertices[0], coord);
        let w2 = edge_function(&self.vertices[0], &self.vertices[1], coord);
        if w0 < 0 || w1 < 0 || w2 < 0 {
            return None;
        }
        let den = w0 + w1 + w2;
        proof {
            lemma_weight_sum_is_area(*self, *coord);
        }
        if den == 0 {
            None
        } else {
            Some(Weights { num: [w0, w1, w2], den })
        }
    }
}

/// At any point, the three opposite-edge values of a triangle sum to exactly
/// twice the triangle's area, so the normalized barycentric weights of any
/// point sum to one.
proof fn lemma_expand_product(p: int, q: int, r: int, s: int)
    ensures
        (p - q) * (r - s) == p * r - p * s - q * r + q * s,
{
    assert((p - q) * (r - s) == p * r - p * s - q * r + q * s) by (nonlinear_arith);
}

pub proof fn lemma_weight_sum_is_area(p: Polygon, c: Coord)
    ensures
        p.wn0(c) + p.wn1(c) + p.wn2(c) == p.area2(),
{
    let ax = p.vertices[0].x as int;
    let ay = p.vertices[0].y as int;
    let bx = p.vertices[1].x as int;
    let by = p.vertices[1].y as int;
    let dx = p.vertices[2].x as int;
    let dy = p.vertices[2].y as int;
    let cx = c.x as int;
    let cy = c.y as int;
    lemma_expand_product(cx, bx, dy, by);
    lemma_expand_product(cy, by, dx, bx);
    lemma_expand_product(cx, dx, ay, dy);
    lemma_expand_product(cy, dy, ax, dx);
    lemma_expand_product(cx, ax, by, ay);
    lemma_expand_product(cy, ay, bx, ax);
    lemma_expand_product(dx, ax, by, ay);
    lemma_expand_product(dy, ay, bx, ax);
    assert((cx - bx) * (dy - by) - (cy - by) * (dx - bx) + ((cx - dx) * (ay - dy) - (cy - dy) * (ax
        - dx)) + ((cx - ax) * (by - ay) - (cy - ay) * (bx - ax)) == (dx - ax) * (by - ay) - (dy
        - ay) * (bx - ax));
}

} // verus!
