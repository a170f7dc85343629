//! Geometric primitives and the scan-conversion rasterizer.
//!
//! Screen-space positions are fixed-point (see [`crate::geo::FP_ONE`]);
//! pixel coordinates are their truncation toward zero. Containment is
//! decided by the signs of exact integer barycentric numerators, so a
//! pixel is inside exactly when it lies in all three signed half-planes
//! of the triangle's edges.

use vstd::prelude::*;
use vstd::arithmetic::div_mod::lemma_div_is_ordered;
use vstd::arithmetic::div_mod::lemma_div_pos_is_pos;
use vstd::arithmetic::div_mod::lemma_div_multiples_vanish;
use vstd::arithmetic::mul::lemma_mul_inequality;
use crate::geo::FP_ONE;
use crate::geo::OBJ_LIMIT;
use crate::geo::SCREEN_LIMIT;
use crate::geo::Vec2;
use crate::geo::Vec3;
use crate::geo::cross_product;
use crate::geo::spec_cross;
use crate::geo::lemma_mul_bound;
use crate::image::Color;
use crate::image::Image;
use crate::image::ImageV;

verus! {

/// Largest magnitude accepted for a truncated pixel coordinate
/// (2^18): every edge-function product over such coordinates fits
/// comfortably in an `i64`.
pub const PIX_LIMIT: i64 = 262144;

/// Bound on every barycentric numerator and denominator produced from
/// coordinates within [`PIX_LIMIT`] (2^41).
pub const BARY_LIMIT: i64 = 2199023255552;

/// Bound on every component of an unnormalized face normal computed
/// from coordinates within [`crate::geo::OBJ_LIMIT`] (2^51).
pub const NORMAL_LIMIT: i64 = 2251799813685248;

/// Truncating division toward zero (the behaviour of `/` on Rust's
/// signed integers), for a positive divisor.
pub open spec fn tdiv(a: int, b: int) -> int {
    if a >= 0 {
        a / b
    } else {
        -((-a) / b)
    }
}

/// The pixel column or row of a fixed-point screen coordinate:
/// truncation toward zero.
pub open spec fn to_px(a: int) -> int {
    tdiv(a, FP_ONE as int)
}

/// Clamps `x` into `[lo, hi]`.
pub open spec fn spec_clip(x: int, lo: int, hi: int) -> int {
    if x < lo {
        lo
    } else if x > hi {
        hi
    } else {
        x
    }
}

pub open spec fn min3(a: int, b: int, c: int) -> int {
    if a <= b && a <= c {
        a
    } else if b <= c {
        b
    } else {
        c
    }
}

pub open spec fn max3(a: int, b: int, c: int) -> int {
    if a >= b && a >= c {
        a
    } else if b >= c {
        b
    } else {
        c
    }
}

/// The edge function of the directed edge `(a, b)` at point `q`:
/// positive when `q` lies to the left of the edge, zero on it,
/// negative to the right. Twice the signed area of the triangle
/// `(a, b, q)`.
pub open spec fn spec_edge(ax: int, ay: int, bx: int, by: int, qx: int, qy: int) -> int {
    (bx - ax) * (qy - ay) - (by - ay) * (qx - ax)
}

/// First auxiliary cross component of the barycentric computation;
/// equals `-spec_edge(t0, t1, q)`.
pub open spec fn bary_cx(
    x0: int, y0: int, x1: int, y1: int, qx: int, qy: int,
) -> int {
    (x1 - x0) * (y0 - qy) - (x0 - qx) * (y1 - y0)
}

/// Second auxiliary cross component; equals `-spec_edge(t2, t0, q)`.
pub open spec fn bary_cy(
    x0: int, y0: int, x2: int, y2: int, qx: int, qy: int,
) -> int {
    (x0 - qx) * (y2 - y0) - (x2 - x0) * (y0 - qy)
}

/// The common denominator of the barycentric weights; equals
/// `-spec_edge(t0, t1, t2)`, minus twice the signed area.
pub open spec fn bary_den(x0: int, y0: int, x1: int, y1: int, x2: int, y2: int) -> int {
    (x2 - x0) * (y1 - y0) - (x1 - x0) * (y2 - y0)
}

/// Numerator of the weight of vertex 0 at `q` (weight = n0 / den).
pub open spec fn bary_n0(
    x0: int, y0: int, x1: int, y1: int, x2: int, y2: int, qx: int, qy: int,
) -> int {
    bary_den(x0, y0, x1, y1, x2, y2) - bary_cx(x0, y0, x1, y1, qx, qy) - bary_cy(
        x0, y0, x2, y2, qx, qy)
}

/// Numerator of the weight of vertex 1 at `q`.
pub open spec fn bary_n1(
    x0: int, y0: int, x2: int, y2: int, qx: int, qy: int,
) -> int {
    bary_cy(x0, y0, x2, y2, qx, qy)
}

/// Numerator of the weight of vertex 2 at `q`.
pub open spec fn bary_n2(
    x0: int, y0: int, x1: int, y1: int, qx: int, qy: int,
) -> int {
    bary_cx(x0, y0, x1, y1, qx, qy)
}

/// A point is inside the triangle exactly when all three barycentric
/// weights are at least zero: the numerators all carry the sign of the
/// denominator (or vanish). Degenerate triangles contain nothing.
pub open spec fn spec_inside(
    x0: int, y0: int, x1: int, y1: int, x2: int, y2: int, qx: int, qy: int,
) -> bool {
    let den = bary_den(x0, y0, x1, y1, x2, y2);
    let n0 = bary_n0(x0, y0, x1, y1, x2, y2, qx, qy);
    let n1 = bary_n1(x0, y0, x2, y2, qx, qy);
    let n2 = bary_n2(x0, y0, x1, y1, qx, qy);
    &&& den != 0
    &&& (den > 0 ==> n0 >= 0 && n1 >= 0 && n2 >= 0)
    &&& (den < 0 ==> n0 <= 0 && n1 <= 0 && n2 <= 0)
}

/// The three barycentric numerators always sum to the denominator:
/// the weights sum to exactly one wherever they are defined.
pub proof fn lemma_barycentric_sum(
    x0: int, y0: int, x1: int, y1: int, x2: int, y2: int, qx: int, qy: int,
)
    ensures
        bary_n0(x0, y0, x1, y1, x2, y2, qx, qy) + bary_n1(x0, y0, x2, y2, qx, qy) + bary_n2(
            x0, y0, x1, y1, qx, qy) == bary_den(x0, y0, x1, y1, x2, y2),
{
}

/// For a point inside a non-degenerate triangle, every sign-adjusted
/// barycentric numerator lies between zero and the absolute
/// denominator: each weight lies in [0, 1].
pub proof fn lemma_weights_in_unit_range(
    x0: int, y0: int, x1: int, y1: int, x2: int, y2: int, qx: int, qy: int,
)
    requires
        spec_inside(x0, y0, x1, y1, x2, y2, qx, qy),
    ensures
        bary_den(x0, y0, x1, y1, x2, y2) > 0 ==> {
            &&& 0 <= bary_n0(x0, y0, x1, y1, x2, y2, qx, qy) <= bary_den(x0, y0, x1, y1, x2, y2)
            &&& 0 <= bary_n1(x0, y0, x2, y2, qx, qy) <= bary_den(x0, y0, x1, y1, x2, y2)
            &&& 0 <= bary_n2(x0, y0, x1, y1, qx, qy) <= bary_den(x0, y0, x1, y1, x2, y2)
        },
        bary_den(x0, y0, x1, y1, x2, y2) < 0 ==> {
            &&& bary_den(x0, y0, x1, y1, x2, y2) <= bary_n0(x0, y0, x1, y1, x2, y2, qx, qy) <= 0
            &&& bary_den(x0, y0, x1, y1, x2, y2) <= bary_n1(x0, y0, x2, y2, qx, qy) <= 0
            &&& bary_den(x0, y0, x1, y1, x2, y2) <= bary_n2(x0, y0, x1, y1, qx, qy) <= 0
        },
{
    lemma_barycentric_sum(x0, y0, x1, y1, x2, y2, qx, qy);
}

/// A pixel is classified inside exactly when it lies in the
/// intersection of the three signed half-planes of the triangle's
/// directed edges `(t0,t1)`, `(t1,t2)`, `(t2,t0)`: each edge function
/// carries the sign of the triangle's signed area (or vanishes).
pub proof fn lemma_inside_halfplanes(
    x0: int, y0: int, x1: int, y1: int, x2: int, y2: int, qx: int, qy: int,
)
    ensures
        ({
            let area2 = spec_edge(x0, y0, x1, y1, x2, y2);
            spec_inside(x0, y0, x1, y1, x2, y2, qx, qy) <==> {
                &&& area2 != 0
                &&& (area2 > 0 ==> spec_edge(x0, y0, x1, y1, qx, qy) >= 0 && spec_edge(
                    x1, y1, x2, y2, qx, qy) >= 0 && spec_edge(x2, y2, x0, y0, qx, qy) >= 0)
                &&& (area2 < 0 ==> spec_edge(x0, y0, x1, y1, qx, qy) <= 0 && spec_edge(
                    x1, y1, x2, y2, qx, qy) <= 0 && spec_edge(x2, y2, x0, y0, qx, qy) <= 0)
            }
        }),
{
    assert((x2 - x0) * (y1 - y0) - (x1 - x0) * (y2 - y0) == -((x1 - x0) * (y2 - y0) - (y1
        - y0) * (x2 - x0))) by (nonlinear_arith);
    assert((x1 - x0) * (y0 - qy) - (x0 - qx) * (y1 - y0) == -((x1 - x0) * (qy - y0) - (y1
        - y0) * (qx - x0))) by (nonlinear_arith);
    assert((x0 - qx) * (y2 - y0) - (x2 - x0) * (y0 - qy) == -((x0 - x2) * (qy - y2) - (y0
        - y2) * (qx - x2))) by (nonlinear_arith);
    assert(((x2 - x0) * (y1 - y0) - (x1 - x0) * (y2 - y0)) - ((x1 - x0) * (y0 - qy) - (x0
        - qx) * (y1 - y0)) - ((x0 - qx) * (y2 - y0) - (x2 - x0) * (y0 - qy)) == -((x2
        - x1) * (qy - y1) - (y2 - y1) * (qx - x1))) by (nonlinear_arith);
}

/// Clamps `x` into `[min, max]`.
pub fn clip(x: i32, min: i32, max: i32) -> (r: i32)
    ensures
        r as int == spec_clip(x as int, min as int, max as int),
{
    if x < min {
        min
    } else if x > max {
        max
    } else {
        x
    }
}

/// The magnitude of a truncated quotient is bounded by the quotient of
/// the bounds.
pub proof fn lemma_tdiv_bound(a: int, b: int, l: int)
    requires
        b > 0,
        0 <= l,
        -l <= a <= l,
    ensures
        -(l / b) <= tdiv(a, b) <= l / b,
        0 <= l / b,
{
    lemma_div_pos_is_pos(l, b);
    if a >= 0 {
        lemma_div_pos_is_pos(a, b);
        lemma_div_is_ordered(a, l, b);
    } else {
        lemma_div_pos_is_pos(-a, b);
        lemma_div_is_ordered(-a, l, b);
    }
}

/// A weighted average with nonnegative weights summing to the divisor
/// stays within the bound of its values, also after truncation.
pub proof fn lemma_weighted_average_bound(
    m0: int, m1: int, m2: int, z0: int, z1: int, z2: int, a: int, zb: int,
)
    requires
        0 <= m0,
        0 <= m1,
        0 <= m2,
        m0 + m1 + m2 == a,
        0 < a,
        0 <= zb,
        -zb <= z0 <= zb,
        -zb <= z1 <= zb,
        -zb <= z2 <= zb,
    ensures
        -zb <= tdiv(m0 * z0 + m1 * z1 + m2 * z2, a) <= zb,
{
    let s = m0 * z0 + m1 * z1 + m2 * z2;
    lemma_mul_inequality(z0, zb, m0);
    lemma_mul_inequality(z1, zb, m1);
    lemma_mul_inequality(z2, zb, m2);
    lemma_mul_inequality(-zb, z0, m0);
    lemma_mul_inequality(-zb, z1, m1);
    lemma_mul_inequality(-zb, z2, m2);
    assert(z0 * m0 == m0 * z0) by (nonlinear_arith);
    assert(z1 * m1 == m1 * z1) by (nonlinear_arith);
    assert(z2 * m2 == m2 * z2) by (nonlinear_arith);
    assert(zb * m0 + zb * m1 + zb * m2 == zb * a) by (nonlinear_arith)
        requires
            m0 + m1 + m2 == a,
    ;
    assert(-zb * m0 + -zb * m1 + -zb * m2 == -(zb * a)) by (nonlinear_arith)
        requires
            m0 + m1 + m2 == a,
    ;
    assert(-(zb * a) <= s <= zb * a);
    if s >= 0 {
        lemma_div_is_ordered(s, zb * a, a);
        assert(zb * a == a * zb) by (nonlinear_arith);
        lemma_div_multiples_vanish(zb, a);
        lemma_div_pos_is_pos(s, a);
    } else {
        lemma_div_is_ordered(-s, zb * a, a);
        assert(zb * a == a * zb) by (nonlinear_arith);
        lemma_div_multiples_vanish(zb, a);
        lemma_div_pos_is_pos(-s, a);
    }
}

/// A vertex: object-space position, an optional normalized texture
/// coordinate, the derived screen-space position, and an optional
/// derived texel-space coordinate. All components are fixed-point.
#[derive(Clone, Copy, Debug)]
pub struct Vertex {
    pub coords: Vec3<i64>,
    pub texture: Option<Vec2<i64>>,
    pub screen_coords: Vec3<i64>,
    pub screen_texture: Option<Vec2<i64>>,
}

impl Vertex {
    /// Object-space coordinates and the light direction are bounded so
    /// that normals and intensities stay exactly representable.
    pub open spec fn coords_bounded(self) -> bool {
        &&& -OBJ_LIMIT <= self.coords.x <= OBJ_LIMIT
        &&& -OBJ_LIMIT <= self.coords.y <= OBJ_LIMIT
        &&& -OBJ_LIMIT <= self.coords.z <= OBJ_LIMIT
    }

    /// Screen-space coordinates are bounded so that truncated pixel
    /// coordinates stay within [`PIX_LIMIT`] and depths interpolate
    /// without overflow.
    pub open spec fn screen_bounded(self) -> bool {
        &&& -SCREEN_LIMIT <= self.screen_coords.x <= SCREEN_LIMIT
        &&& -SCREEN_LIMIT <= self.screen_coords.y <= SCREEN_LIMIT
        &&& -OBJ_LIMIT <= self.screen_coords.z <= OBJ_LIMIT
    }

    pub fn new(coords: Vec3<i64>) -> (r: Vertex)
        ensures
            r.coords == coords,
            r.texture is None,
            r.screen_coords == coords,
            r.screen_texture is None,
    {
        Vertex { coords, texture: None, screen_coords: coords, screen_texture: None }
    }

    /// A vertex from the first three components of a coordinate list.
    pub fn from_vec(coords: Vec<i64>) -> (r: Vertex)
        requires
            coords@.len() >= 3,
        ensures
            r.coords.x == coords@[0],
            r.coords.y == coords@[1],
            r.coords.z == coords@[2],
            r.texture is None,
            r.screen_coords == r.coords,
            r.screen_texture is None,
    {
        let c = Vec3::from_vec(coords);
        Vertex { coords: c, texture: None, screen_coords: c, screen_texture: None }
    }

    /// Attaches a normalized texture coordinate from the first two
    /// components of a coordinate list.
    pub fn set_texture(&mut self, coords: Vec<i64>)
        requires
            coords@.len() >= 2,
        ensures
            final(self).texture == (Some(Vec2 { x: coords@[0], y: coords@[1] })),
            final(self).coords == old(self).coords,
            final(self).screen_coords == old(self).screen_coords,
            final(self).screen_texture == old(self).screen_texture,
    {
        self.texture = Some(Vec2 { x: coords[0], y: coords[1] });
    }

    /// Projects the object-space position, whose x and y are normalized
    /// to [-1, 1], to pixel coordinates: `x' = (x + 1) * width / 2`,
    /// `y' = (y + 1) * height / 2`; z is carried through unchanged.
    /// Derived texel coordinates are reset.
    pub fn scale_to_image(self, width: i32, height: i32) -> (r: Vertex)
        requires
            self.coords_bounded(),
            0 <= width <= 0xFFFF,
            0 <= height <= 0xFFFF,
        ensures
            r.coords == self.coords,
            r.texture == self.texture,
            r.screen_coords.x as int == tdiv(
                (self.coords.x + FP_ONE) * width, 2),
            r.screen_coords.y as int == tdiv(
                (self.coords.y + FP_ONE) * height, 2),
            r.screen_coords.z == self.coords.z,
            r.screen_texture is None,
    {
        proof {
            lemma_mul_bound(self.coords.x + FP_ONE, width as int, 16842752, 65535,
                2199023255552);
            lemma_mul_bound(self.coords.y + FP_ONE, height as int, 16842752, 65535,
                2199023255552);
        }
        let sx: i64 = (self.coords.x + FP_ONE) * (width as i64) / 2;
        let sy: i64 = (self.coords.y + FP_ONE) * (height as i64) / 2;
        Vertex {
            coords: self.coords,
            texture: self.texture,
            screen_coords: Vec3 { x: sx, y: sy, z: self.coords.z },
            screen_texture: None,
        }
    }

    /// Scales the normalized texture coordinate, which must be present
    /// and lie in [0, 1], into the texel space of a texture of the
    /// given dimensions: `u' = u * width`, `v' = v * height`.
    pub fn scale_to_texture(self, width: i32, height: i32) -> (r: Vertex)
        requires
            self.texture matches Some(uv) && 0 <= uv.x <= FP_ONE && 0 <= uv.y <= FP_ONE,
            0 <= width <= 0xFFFF,
            0 <= height <= 0xFFFF,
        ensures
            r.coords == self.coords,
            r.texture == self.texture,
            r.screen_coords == self.screen_coords,
            r.screen_texture == (Some(Vec2 {
                x: (self.texture->0.x * width) as i64,
                y: (self.texture->0.y * height) as i64,
            })),
            r.screen_texture->0.x as int == self.texture->0.x * width,
            r.screen_texture->0.y as int == self.texture->0.y * height,
            0 <= r.screen_texture->0.x <= 4294901760,
            0 <= r.screen_texture->0.y <= 4294901760,
    {
        let uv = match self.texture {
            Some(uv) => uv,
            None => Vec2 { x: 0, y: 0 },
        };
        proof {
            lemma_mul_bound(uv.x as int, width as int, 65536, 65535, 4294901760);
            lemma_mul_bound(uv.y as int, height as int, 65536, 65535, 4294901760);
            vstd::arithmetic::mul::lemma_mul_nonnegative(uv.x as int, width as int);
            vstd::arithmetic::mul::lemma_mul_nonnegative(uv.y as int, height as int);
        }
        let sx: i64 = uv.x * (width as i64);
        let sy: i64 = uv.y * (height as i64);
        Vertex {
            coords: self.coords,
            texture: self.texture,
            screen_coords: self.screen_coords,
            screen_texture: Some(Vec2 { x: sx, y: sy }),
        }
    }
}

/// A triangle: exactly three vertices, in order. The order defines the
/// winding and hence the sign of the face normal.
#[derive(Debug)]
pub struct Triangle {
    pub vertices: Vec<Vertex>,
}

impl Triangle {
    pub open spec fn wf3(self) -> bool {
        self.vertices@.len() == 3
    }

    pub open spec fn v(self, i: int) -> Vertex {
        self.vertices@[i]
    }

    /// Truncated pixel column of vertex `i`.
    pub open spec fn sx(self, i: int) -> int {
        to_px(self.v(i).screen_coords.x as int)
    }

    /// Truncated pixel row of vertex `i`.
    pub open spec fn sy(self, i: int) -> int {
        to_px(self.v(i).screen_coords.y as int)
    }

    /// Fixed-point screen depth of vertex `i`.
    pub open spec fn sz(self, i: int) -> int {
        self.v(i).screen_coords.z as int
    }

    pub open spec fn all_bounded(self) -> bool {
        forall|i: int|
            0 <= i < 3 ==> (#[trigger] self.v(i)).coords_bounded() && self.v(i).screen_bounded()
    }

    pub fn new(vertices: Vec<Vertex>) -> (r: Triangle)
        requires
            vertices@.len() == 3,
        ensures
            r.vertices@ == vertices@,
    {
        Triangle { vertices }
    }

    /// Projects every vertex to pixel coordinates (see
    /// [`Vertex::scale_to_image`]).
    pub fn scale_to_image(&self, width: i32, height: i32) -> (r: Triangle)
        requires
            self.wf3(),
            forall|i: int| 0 <= i < 3 ==> (#[trigger] self.v(i)).coords_bounded(),
            0 <= width <= 0xFFFF,
            0 <= height <= 0xFFFF,
        ensures
            r.wf3(),
            forall|i: int|
                0 <= i < 3 ==> {
                    &&& (#[trigger] r.v(i)).coords == self.v(i).coords
                    &&& r.v(i).texture == self.v(i).texture
                    &&& r.v(i).screen_coords.x as int == tdiv(
                        (self.v(i).coords.x + FP_ONE) * width, 2)
                    &&& r.v(i).screen_coords.y as int == tdiv(
                        (self.v(i).coords.y + FP_ONE) * height, 2)
                    &&& r.v(i).screen_coords.z == self.v(i).coords.z
                    &&& r.v(i).screen_texture is None
                },
    {
        proof {
            assert(self.v(0).coords_bounded());
            assert(self.v(1).coords_bounded());
            assert(self.v(2).coords_bounded());
        }
        let v0 = self.vertices[0].scale_to_image(width, height);
        let v1 = self.vertices[1].scale_to_image(width, height);
        let v2 = self.vertices[2].scale_to_image(width, height);
        let vertices = vec![v0, v1, v2];
        let t = Triangle { vertices };
        proof {
            assert(t.v(0) == v0);
            assert(t.v(1) == v1);
            assert(t.v(2) == v2);
        }
        t
    }

    /// The components of the (unnormalized) face normal: the cross
    /// product of the two edge vectors out of vertex 0. The sign
    /// follows the authored winding order.
    pub open spec fn spec_normal(self) -> (int, int, int) {
        spec_cross(
            self.v(1).coords.x - self.v(0).coords.x,
            self.v(1).coords.y - self.v(0).coords.y,
            self.v(1).coords.z - self.v(0).coords.z,
            self.v(2).coords.x - self.v(0).coords.x,
            self.v(2).coords.y - self.v(0).coords.y,
            self.v(2).coords.z - self.v(0).coords.z,
        )
    }

    /// The face normal, unnormalized: its direction carries the
    /// winding, its length twice the face area. Callers that need a
    /// unit normal divide by the Euclidean norm outside this core.
    pub fn surface_normal(&self) -> (r: Vec3<i64>)
        requires
            self.wf3(),
            forall|i: int| 0 <= i < 3 ==> (#[trigger] self.v(i)).coords_bounded(),
        ensures
            r.x as int == self.spec_normal().0,
            r.y as int == self.spec_normal().1,
            r.z as int == self.spec_normal().2,
            -NORMAL_LIMIT <= r.x <= NORMAL_LIMIT,
            -NORMAL_LIMIT <= r.y <= NORMAL_LIMIT,
            -NORMAL_LIMIT <= r.z <= NORMAL_LIMIT,
    {
        proof {
            assert(self.v(0).coords_bounded());
            assert(self.v(1).coords_bounded());
            assert(self.v(2).coords_bounded());
        }
        let a = self.vertices[1].coords.minus(self.vertices[0].coords);
        let b = self.vertices[2].coords.minus(self.vertices[0].coords);
        proof {
            lemma_mul_bound(a.y as int, b.z as int, 33554432, 33554432, 1125899906842624);
            lemma_mul_bound(a.z as int, b.y as int, 33554432, 33554432, 1125899906842624);
            lemma_mul_bound(a.z as int, b.x as int, 33554432, 33554432, 1125899906842624);
            lemma_mul_bound(a.x as int, b.z as int, 33554432, 33554432, 1125899906842624);
            lemma_mul_bound(a.x as int, b.y as int, 33554432, 33554432, 1125899906842624);
            lemma_mul_bound(a.y as int, b.x as int, 33554432, 33554432, 1125899906842624);
        }
        cross_product(a, b)
    }

    /// The barycentric denominator of the triangle's truncated screen
    /// vertices: zero exactly for a degenerate (collinear) projection.
    pub open spec fn den(self) -> int {
        bary_den(self.sx(0), self.sy(0), self.sx(1), self.sy(1), self.sx(2), self.sy(2))
    }

    pub open spec fn n0(self, qx: int, qy: int) -> int {
        bary_n0(self.sx(0), self.sy(0), self.sx(1), self.sy(1), self.sx(2), self.sy(2), qx, qy)
    }

    pub open spec fn n1(self, qx: int, qy: int) -> int {
        bary_n1(self.sx(0), self.sy(0), self.sx(2), self.sy(2), qx, qy)
    }

    pub open spec fn n2(self, qx: int, qy: int) -> int {
        bary_n2(self.sx(0), self.sy(0), self.sx(1), self.sy(1), qx, qy)
    }

    pub open spec fn inside(self, qx: int, qy: int) -> bool {
        spec_inside(
            self.sx(0), self.sy(0), self.sx(1), self.sy(1), self.sx(2), self.sy(2), qx, qy)
    }
}

/// Clamps a value into `[0, w]`, then truncates from fixed-point to a
/// texel index clamped into `[0, w - 1]`: nearest-neighbour sampling
/// never leaves the texture.
pub open spec fn spec_texel_axis(s: int, a: int, w: int) -> int {
    let t = tdiv(s, a);
    let tc = if t < 0 {
        0
    } else if t > w * FP_ONE {
        w * FP_ONE
    } else {
        t
    };
    let q = tc / (FP_ONE as int);
    if q >= w {
        w - 1
    } else {
        q
    }
}

/// One axis of nearest-neighbour texture sampling: divides the
/// interpolation sum by the absolute denominator, clamps into the
/// texture, and truncates to a texel index.
fn texel_axis(s: i128, a: i64, w: i32) -> (r: i32)
    requires
        a > 0,
        1 <= w <= 0xFFFF,
    ensures
        r as int == spec_texel_axis(s as int, a as int, w as int),
        0 <= r < w,
{
    let t: i128 = s / (a as i128);
    proof {
        lemma_mul_bound(w as int, FP_ONE as int, 65535, 65536, 4294901760);
    }
    let lim: i128 = (w as i128) * (FP_ONE as i128);
    let tc: i128 = if t < 0 {
        0
    } else if t > lim {
        lim
    } else {
        t
    };
    let q: i128 = tc / (FP_ONE as i128);
    proof {
        lemma_div_pos_is_pos(tc as int, FP_ONE as int);
        lemma_div_is_ordered(tc as int, (w as int) * (FP_ONE as int), FP_ONE as int);
        lemma_div_multiples_vanish(w as int, FP_ONE as int);
        assert((FP_ONE as int) * (w as int) == (w as int) * (FP_ONE as int));
    }
    if q >= (w as i128) {
        w - 1
    } else {
        q as i32
    }
}

impl Triangle {
    /// The unnormalized shading intensity: the dot product of the face
    /// normal with the light direction. Its sign equals the sign of the
    /// normalized intensity, since norms are positive.
    pub open spec fn spec_intensity(self, light: Vec3<i64>) -> int {
        self.spec_normal().0 * light.x + self.spec_normal().1 * light.y + self.spec_normal().2
            * light.z
    }

    /// A triangle is culled when it faces away from the light: the
    /// whole triangle is skipped, no pixel is touched.
    pub open spec fn culled(self, light: Vec3<i64>) -> bool {
        self.spec_intensity(light) <= 0
    }

    /// Every vertex carries a texture coordinate.
    pub open spec fn has_uvs(self) -> bool {
        forall|i: int| 0 <= i < 3 ==> (#[trigger] self.v(i)).texture is Some
    }

    /// Left edge of the clipped scan range (inclusive).
    pub open spec fn scan_x0(self, w: int) -> int {
        spec_clip(min3(self.sx(0), self.sx(1), self.sx(2)), 0, w)
    }

    /// Right edge of the clipped scan range (exclusive).
    pub open spec fn scan_x1(self, w: int) -> int {
        spec_clip(max3(self.sx(0), self.sx(1), self.sx(2)), 0, w)
    }

    /// Top edge of the clipped scan range (inclusive).
    pub open spec fn scan_y0(self, h: int) -> int {
        spec_clip(min3(self.sy(0), self.sy(1), self.sy(2)), 0, h)
    }

    /// Bottom edge of the clipped scan range (exclusive).
    pub open spec fn scan_y1(self, h: int) -> int {
        spec_clip(max3(self.sy(0), self.sy(1), self.sy(2)), 0, h)
    }

    /// The absolute barycentric denominator.
    pub open spec fn abs_den(self) -> int {
        if self.den() >= 0 {
            self.den()
        } else {
            -self.den()
        }
    }

    /// Sign-adjusted numerator of vertex 0: nonnegative inside.
    pub open spec fn m0(self, qx: int, qy: int) -> int {
        if self.den() >= 0 {
            self.n0(qx, qy)
        } else {
            -self.n0(qx, qy)
        }
    }

    pub open spec fn m1(self, qx: int, qy: int) -> int {
        if self.den() >= 0 {
            self.n1(qx, qy)
        } else {
            -self.n1(qx, qy)
        }
    }

    pub open spec fn m2(self, qx: int, qy: int) -> int {
        if self.den() >= 0 {
            self.n2(qx, qy)
        } else {
            -self.n2(qx, qy)
        }
    }

    /// The interpolated depth at a pixel: the barycentric-weighted sum
    /// of the vertices' screen depths, as one exact truncated quotient.
    pub open spec fn pix_depth(self, qx: int, qy: int) -> int {
        tdiv(
            self.m0(qx, qy) * self.sz(0) + self.m1(qx, qy) * self.sz(1) + self.m2(qx, qy)
                * self.sz(2),
            self.abs_den(),
        )
    }

    /// Texel coordinate of vertex `i` for a texture of width `tw`.
    pub open spec fn tex_u(self, i: int, tw: int) -> int {
        self.v(i).texture->0.x * tw
    }

    /// Texel coordinate of vertex `i` for a texture of height `th`.
    pub open spec fn tex_v(self, i: int, th: int) -> int {
        self.v(i).texture->0.y * th
    }

    /// Sampled texel column at a pixel.
    pub open spec fn tex_col(self, tex: ImageV, qx: int, qy: int) -> int {
        spec_texel_axis(
            self.m0(qx, qy) * self.tex_u(0, tex.width) + self.m1(qx, qy) * self.tex_u(
                1, tex.width) + self.m2(qx, qy) * self.tex_u(2, tex.width),
            self.abs_den(),
            tex.width,
        )
    }

    /// Sampled texel row at a pixel.
    pub open spec fn tex_row(self, tex: ImageV, qx: int, qy: int) -> int {
        spec_texel_axis(
            self.m0(qx, qy) * self.tex_v(0, tex.height) + self.m1(qx, qy) * self.tex_v(
                1, tex.height) + self.m2(qx, qy) * self.tex_v(2, tex.height),
            self.abs_den(),
            tex.height,
        )
    }

    /// The color written at an inside pixel: the nearest-neighbour
    /// texture sample when a texture is bound, else the flat shade.
    pub open spec fn pix_color(self, tex: Option<ImageV>, flat: Color, qx: int, qy: int) -> Color {
        match tex {
            None => flat,
            Some(t) => t.colors[self.tex_row(t, qx, qy) * t.width + self.tex_col(t, qx, qy)],
        }
    }

    /// Whether the fragment at buffer index `i` is written: the pixel
    /// lies in the clipped scan range, inside the triangle, and its
    /// interpolated depth is strictly greater than the stored depth.
    pub open spec fn hit(self, v0: ImageV, i: int) -> bool {
        let qx = i % v0.width;
        let qy = i / v0.width;
        &&& self.scan_x0(v0.width) <= qx < self.scan_x1(v0.width)
        &&& self.scan_y0(v0.height) <= qy < self.scan_y1(v0.height)
        &&& self.inside(qx, qy)
        &&& self.pix_depth(qx, qy) > v0.depths[i]
    }
}

/// The depth entry at buffer index `i` after one triangle draw.
pub open spec fn cell_depth(t: Triangle, v0: ImageV, i: int) -> i64 {
    if t.hit(v0, i) {
        t.pix_depth(i % v0.width, i / v0.width) as i64
    } else {
        v0.depths[i]
    }
}

/// The color entry at buffer index `i` after one triangle draw.
pub open spec fn cell_color(t: Triangle, v0: ImageV, tex: Option<ImageV>, flat: Color, i: int)
    -> Color {
    if t.hit(v0, i) {
        t.pix_color(tex, flat, i % v0.width, i / v0.width)
    } else {
        v0.colors[i]
    }
}

/// The framebuffer after drawing one triangle: unchanged when the
/// triangle is culled or degenerate, else every hit fragment gets the
/// interpolated depth and the shaded color and every other entry is
/// untouched.
pub open spec fn spec_draw(
    v0: ImageV, t: Triangle, light: Vec3<i64>, flat: Color, tex: Option<ImageV>,
) -> ImageV {
    if t.culled(light) || t.den() == 0 {
        v0
    } else {
        ImageV {
            width: v0.width,
            height: v0.height,
            colors: Seq::new(v0.colors.len(), |i: int| cell_color(t, v0, tex, flat, i)),
            depths: Seq::new(v0.depths.len(), |i: int| cell_depth(t, v0, i)),
        }
    }
}

/// Which pixels the scan loop has already processed when its cursor
/// stands at column `cx`, row `cy` (columns advance in the outer loop).
pub open spec fn scanned(t: Triangle, w: int, h: int, cx: int, cy: int, qx: int, qy: int) -> bool {
    &&& t.scan_x0(w) <= qx < t.scan_x1(w)
    &&& t.scan_y0(h) <= qy < t.scan_y1(h)
    &&& (qx < cx || (qx == cx && qy < cy))
}

/// Drawing a degenerate triangle (three collinear screen vertices)
/// writes zero pixels and mutates no depth-buffer entry.
pub proof fn lemma_draw_degenerate(
    v0: ImageV, t: Triangle, light: Vec3<i64>, flat: Color, tex: Option<ImageV>,
)
    requires
        t.den() == 0,
    ensures
        spec_draw(v0, t, light, flat, tex) == v0,
{
}

/// A fragment can change the framebuffer only at a pixel classified
/// inside the triangle: no pixel outside the three half-planes is ever
/// written.
pub proof fn lemma_draw_writes_only_inside(
    v0: ImageV, t: Triangle, light: Vec3<i64>, flat: Color, tex: Option<ImageV>, i: int,
)
    requires
        0 <= i < v0.colors.len(),
        v0.depths.len() == v0.colors.len(),
        spec_draw(v0, t, light, flat, tex).colors[i] != v0.colors[i] || spec_draw(
            v0, t, light, flat, tex).depths[i] != v0.depths[i],
    ensures
        t.inside(i % v0.width, i / v0.width),
{
}

/// On a fresh canvas every pixel of the clipped scan range that is
/// classified inside is written: the depth buffer starts at the most
/// negative representable value, so the first fragment at a pixel
/// always passes the depth test.
pub proof fn lemma_draw_covers_inside(
    v0: ImageV, t: Triangle, light: Vec3<i64>, flat: Color, tex: Option<ImageV>, i: int,
)
    requires
        v0.wf(),
        t.wf3(),
        t.all_bounded(),
        0 <= i < v0.colors.len(),
        !t.culled(light),
        t.den() != 0,
        v0.depths[i] == i64::MIN,
        t.scan_x0(v0.width) <= i % v0.width < t.scan_x1(v0.width),
        t.scan_y0(v0.height) <= i / v0.width < t.scan_y1(v0.height),
        t.inside(i % v0.width, i / v0.width),
    ensures
        spec_draw(v0, t, light, flat, tex).depths[i] == t.pix_depth(
            i % v0.width, i / v0.width) as i64,
        spec_draw(v0, t, light, flat, tex).colors[i] == t.pix_color(
            tex, flat, i % v0.width, i / v0.width),
{
    lemma_pix_depth_in_range(t, i % v0.width, i / v0.width);
}

/// The depth test makes drawing idempotent: drawing an identical
/// triangle twice leaves the framebuffer exactly as after the first
/// draw, because the second pass's interpolated depth is never
/// strictly greater than what the first pass stored.
pub proof fn lemma_draw_idempotent(
    v0: ImageV, t: Triangle, light: Vec3<i64>, flat: Color, tex: Option<ImageV>,
)
    requires
        v0.wf(),
        t.wf3(),
        t.all_bounded(),
    ensures
        spec_draw(spec_draw(v0, t, light, flat, tex), t, light, flat, tex) == spec_draw(
            v0, t, light, flat, tex),
{
    let v1 = spec_draw(v0, t, light, flat, tex);
    if !(t.culled(light) || t.den() == 0) {
        let v2 = spec_draw(v1, t, light, flat, tex);
        assert(t.v(0).screen_bounded());
        assert(t.v(1).screen_bounded());
        assert(t.v(2).screen_bounded());
        assert forall|i: int| 0 <= i < v0.depths.len() implies !t.hit(v1, i) by {
            let qx = i % v0.width;
            let qy = i / v0.width;
            if t.hit(v0, i) {
                lemma_pix_depth_in_range(t, qx, qy);
                assert(v1.depths[i] == t.pix_depth(qx, qy) as i64);
            }
        }
        assert(v2.depths =~= v1.depths);
        assert(v2.colors =~= v1.colors);
        assert(v2 =~= v1);
    }
}

/// The interpolated depth of an inside pixel is a weighted average of
/// the vertices' screen depths, so it stays within their common bound.
pub proof fn lemma_pix_depth_in_range(t: Triangle, qx: int, qy: int)
    requires
        t.wf3(),
        t.all_bounded(),
        t.inside(qx, qy),
    ensures
        -OBJ_LIMIT <= t.pix_depth(qx, qy) <= OBJ_LIMIT,
{
    assert(t.v(0).screen_bounded());
    assert(t.v(1).screen_bounded());
    assert(t.v(2).screen_bounded());
    lemma_barycentric_sum(t.sx(0), t.sy(0), t.sx(1), t.sy(1), t.sx(2), t.sy(2), qx, qy);
    lemma_weighted_average_bound(
        t.m0(qx, qy),
        t.m1(qx, qy),
        t.m2(qx, qy),
        t.sz(0),
        t.sz(1),
        t.sz(2),
        t.abs_den(),
        OBJ_LIMIT as int,
    );
}

/// An error of the rasterizer: drawing with a texture bound while some
/// vertex carries no texture coordinate.
#[derive(Clone, Copy, Debug, PartialEq, Eq, Structural)]
pub enum DrawError {
    MissingTextureCoords,
}

impl Triangle {
    /// The axis-aligned bounding box of the truncated screen vertices:
    /// the four corners, counter-clockwise from `(min_x, min_y)`.
    pub fn find_bounding_box(&self) -> (r: Vec<Vec2<i32>>)
        requires
            self.wf3(),
            forall|i: int| 0 <= i < 3 ==> (#[trigger] self.v(i)).screen_bounded(),
        ensures
            r@.len() == 4,
            r@[0].x as int == min3(self.sx(0), self.sx(1), self.sx(2)),
            r@[0].y as int == min3(self.sy(0), self.sy(1), self.sy(2)),
            r@[2].x as int == max3(self.sx(0), self.sx(1), self.sx(2)),
            r@[2].y as int == max3(self.sy(0), self.sy(1), self.sy(2)),
            r@[1].x == r@[0].x,
            r@[1].y == r@[2].y,
            r@[3].x == r@[2].x,
            r@[3].y == r@[0].y,
    {
        proof {
            assert(self.v(0).screen_bounded());
            assert(self.v(1).screen_bounded());
            assert(self.v(2).screen_bounded());
            lemma_tdiv_bound(self.v(0).screen_coords.x as int, 65536, 17179869184);
            lemma_tdiv_bound(self.v(0).screen_coords.y as int, 65536, 17179869184);
            lemma_tdiv_bound(self.v(1).screen_coords.x as int, 65536, 17179869184);
            lemma_tdiv_bound(self.v(1).screen_coords.y as int, 65536, 17179869184);
            lemma_tdiv_bound(self.v(2).screen_coords.x as int, 65536, 17179869184);
            lemma_tdiv_bound(self.v(2).screen_coords.y as int, 65536, 17179869184);
        }
        let x0: i32 = (self.vertices[0].screen_coords.x / FP_ONE) as i32;
        let y0: i32 = (self.vertices[0].screen_coords.y / FP_ONE) as i32;
        let x1: i32 = (self.vertices[1].screen_coords.x / FP_ONE) as i32;
        let y1: i32 = (self.vertices[1].screen_coords.y / FP_ONE) as i32;
        let x2: i32 = (self.vertices[2].screen_coords.x / FP_ONE) as i32;
        let y2: i32 = (self.vertices[2].screen_coords.y / FP_ONE) as i32;
        let min_x: i32 = if x0 <= x1 && x0 <= x2 { x0 } else if x1 <= x2 { x1 } else { x2 };
        let max_x: i32 = if x0 >= x1 && x0 >= x2 { x0 } else if x1 >= x2 { x1 } else { x2 };
        let min_y: i32 = if y0 <= y1 && y0 <= y2 { y0 } else if y1 <= y2 { y1 } else { y2 };
        let max_y: i32 = if y0 >= y1 && y0 >= y2 { y0 } else if y1 >= y2 { y1 } else { y2 };
        vec![
            Vec2 { x: min_x, y: min_y },
            Vec2 { x: min_x, y: max_y },
            Vec2 { x: max_x, y: max_y },
            Vec2 { x: max_x, y: min_y },
        ]
    }

    /// Clips each bounding-box corner independently into
    /// `[0, width] x [0, height]`.
    pub fn clip_bounding_box(&self, bbox: Vec<Vec2<i32>>, image: &Image) -> (r: Vec<Vec2<i32>>)
        requires
            bbox@.len() == 4,
            image.wf(),
        ensures
            r@.len() == 4,
            forall|i: int|
                0 <= i < 4 ==> (#[trigger] r@[i]).x as int == spec_clip(
                    bbox@[i].x as int, 0, image@.width) && r@[i].y as int == spec_clip(
                    bbox@[i].y as int, 0, image@.height),
    {
        let mut result: Vec<Vec2<i32>> = Vec::new();
        let mut i: usize = 0;
        while i < 4
            invariant
                i <= 4,
                result@.len() == i,
                bbox@.len() == 4,
                image.wf(),
                forall|j: int|
                    0 <= j < i ==> (#[trigger] result@[j]).x as int == spec_clip(
                        bbox@[j].x as int, 0, image@.width) && result@[j].y as int == spec_clip(
                        bbox@[j].y as int, 0, image@.height),
            decreases 4 - i,
        {
            let clipped = Vec2 {
                x: clip(bbox[i].x, 0, image.width),
                y: clip(bbox[i].y, 0, image.height),
            };
            result.push(clipped);
            i = i + 1;
        }
        result
    }

    /// Handles one pixel of the scan: classifies it by the signs of
    /// the exact barycentric numerators, interpolates the depth, runs
    /// the depth test, and writes the shaded color and new depth when
    /// the fragment passes; otherwise leaves the framebuffer alone.
    #[verifier::rlimit(100)]
    fn raster_pixel(&self, image: &mut Image, x: i32, y: i32, den: i64, t0: Vec2<i32>,
        t1: Vec2<i32>, t2: Vec2<i32>, z0: i64, z1: i64, z2: i64, tu0: i64, tv0: i64, tu1: i64,
        tv1: i64, tu2: i64, tv2: i64, color: Color, texture: Option<&Image>)
        requires
            old(image).wf(),
            self.wf3(),
            self.all_bounded(),
            old(image)@.in_bounds(x as int, y as int),
            t0.x as int == self.sx(0),
            t0.y as int == self.sy(0),
            t1.x as int == self.sx(1),
            t1.y as int == self.sy(1),
            t2.x as int == self.sx(2),
            t2.y as int == self.sy(2),
            -PIX_LIMIT <= t0.x <= PIX_LIMIT,
            -PIX_LIMIT <= t0.y <= PIX_LIMIT,
            -PIX_LIMIT <= t1.x <= PIX_LIMIT,
            -PIX_LIMIT <= t1.y <= PIX_LIMIT,
            -PIX_LIMIT <= t2.x <= PIX_LIMIT,
            -PIX_LIMIT <= t2.y <= PIX_LIMIT,
            den as int == self.den(),
            den != 0,
            z0 == self.v(0).screen_coords.z,
            z1 == self.v(1).screen_coords.z,
            z2 == self.v(2).screen_coords.z,
            texture matches Some(tex) ==> {
                &&& tex.wf()
                &&& tex@.width >= 1
                &&& tex@.height >= 1
                &&& tu0 as int == self.tex_u(0, tex@.width)
                &&& tu1 as int == self.tex_u(1, tex@.width)
                &&& tu2 as int == self.tex_u(2, tex@.width)
                &&& tv0 as int == self.tex_v(0, tex@.height)
                &&& tv1 as int == self.tex_v(1, tex@.height)
                &&& tv2 as int == self.tex_v(2, tex@.height)
                &&& 0 <= tu0 <= 4294901760
                &&& 0 <= tu1 <= 4294901760
                &&& 0 <= tu2 <= 4294901760
                &&& 0 <= tv0 <= 4294901760
                &&& 0 <= tv1 <= 4294901760
                &&& 0 <= tv2 <= 4294901760
            },
        ensures
            final(image).wf(),
            final(image)@.width == old(image)@.width,
            final(image)@.height == old(image)@.height,
            ({
                let idx = old(image)@.idx(x as int, y as int);
                let texv = match texture {
                    Some(t) => Some(t@),
                    None => None::<ImageV>,
                };
                if self.inside(x as int, y as int) && self.pix_depth(x as int, y as int) > old(
                    image)@.depths[idx] {
                    final(image)@.depths == old(image)@.depths.update(
                        idx, self.pix_depth(x as int, y as int) as i64) && final(image)@.colors
                        == old(image)@.colors.update(idx, self.pix_color(
                            texv, color, x as int, y as int))
                } else {
                    final(image)@ == old(image)@
                }
            }),
    {
        let ghost texv: Option<ImageV> = match texture {
            Some(t) => Some(t@),
            None => None,
        };
        proof {
            crate::image::lemma_row_major(x as int, y as int, old(image)@.width,
                old(image)@.height);
            assert(self.v(0).screen_bounded());
            assert(self.v(1).screen_bounded());
            assert(self.v(2).screen_bounded());
        }
        let p = Vec2 { x, y };
        let (bc, _den_px) = new_barycentric(&t0, &t1, &t2, &p);
        let (mm0, mm1, mm2, aa): (i64, i64, i64, i64) = if den > 0 {
            (bc.x, bc.y, bc.z, den)
        } else {
            (-bc.x, -bc.y, -bc.z, -den)
        };
        proof {
            assert(mm0 as int == self.m0(x as int, y as int));
            assert(mm1 as int == self.m1(x as int, y as int));
            assert(mm2 as int == self.m2(x as int, y as int));
            assert(aa as int == self.abs_den());
            assert((mm0 >= 0 && mm1 >= 0 && mm2 >= 0) == self.inside(x as int, y as int));
        }
        if mm0 >= 0 && mm1 >= 0 && mm2 >= 0 {
            // Interpolated depth, as one exact truncated quotient.
            proof {
                lemma_mul_bound(mm0 as int, z0 as int, 2199023255552, 16777216,
                    36893488147419103232);
                lemma_mul_bound(mm1 as int, z1 as int, 2199023255552, 16777216,
                    36893488147419103232);
                lemma_mul_bound(mm2 as int, z2 as int, 2199023255552, 16777216,
                    36893488147419103232);
                lemma_pix_depth_in_range(*self, x as int, y as int);
            }
            let s: i128 = (mm0 as i128) * (z0 as i128) + (mm1 as i128) * (z1 as i128) + (mm2
                as i128) * (z2 as i128);
            let d128: i128 = s / (aa as i128);
            proof {
                assert(d128 as int == self.pix_depth(x as int, y as int));
            }
            let d: i64 = d128 as i64;

            // The fragment's color: sampled or flat.
            let c: Color = match texture {
                Some(tex) => {
                    proof {
                        lemma_mul_bound(mm0 as int, tu0 as int, 2199023255552, 4294901760,
                            9444732965739290427392);
                        lemma_mul_bound(mm1 as int, tu1 as int, 2199023255552, 4294901760,
                            9444732965739290427392);
                        lemma_mul_bound(mm2 as int, tu2 as int, 2199023255552, 4294901760,
                            9444732965739290427392);
                        lemma_mul_bound(mm0 as int, tv0 as int, 2199023255552, 4294901760,
                            9444732965739290427392);
                        lemma_mul_bound(mm1 as int, tv1 as int, 2199023255552, 4294901760,
                            9444732965739290427392);
                        lemma_mul_bound(mm2 as int, tv2 as int, 2199023255552, 4294901760,
                            9444732965739290427392);
                    }
                    let su: i128 = (mm0 as i128) * (tu0 as i128) + (mm1 as i128) * (tu1
                        as i128) + (mm2 as i128) * (tu2 as i128);
                    let sv: i128 = (mm0 as i128) * (tv0 as i128) + (mm1 as i128) * (tv1
                        as i128) + (mm2 as i128) * (tv2 as i128);
                    let tcx: i32 = texel_axis(su, aa, tex.width);
                    let tcy: i32 = texel_axis(sv, aa, tex.height);
                    proof {
                        assert(tcx as int == self.tex_col(tex@, x as int, y as int));
                        assert(tcy as int == self.tex_row(tex@, x as int, y as int));
                    }
                    tex.get_pixel(tcx, tcy)
                },
                None => color,
            };
            proof {
                assert(c == self.pix_color(texv, color, x as int, y as int));
            }

            let cur: i64 = image.get_depth(x, y);
            if d > cur {
                image.set_depth(x, y, d);
                image.set_pixel(x, y, c);
            }
        }
    }

    /// Rasterizes the triangle into the framebuffer: culls it when it
    /// faces away from the light, skips it when its screen projection
    /// is degenerate, and otherwise scans the clipped bounding box,
    /// writing every inside pixel that passes the depth test with the
    /// sampled texture color (or the flat shade when no texture is
    /// bound). With a texture bound, every vertex must carry a texture
    /// coordinate, else nothing is drawn and an error is returned.
    #[verifier::loop_isolation(false)]
    #[verifier::rlimit(100)]
    pub fn draw(&self, image: &mut Image, light_dir: Vec3<i64>, color: Color,
        texture: Option<&Image>) -> (res: Result<(), DrawError>)
        requires
            old(image).wf(),
            self.wf3(),
            self.all_bounded(),
            -OBJ_LIMIT <= light_dir.x <= OBJ_LIMIT,
            -OBJ_LIMIT <= light_dir.y <= OBJ_LIMIT,
            -OBJ_LIMIT <= light_dir.z <= OBJ_LIMIT,
            texture matches Some(t) ==> t.wf() && t@.width >= 1 && t@.height >= 1,
            texture is Some ==> forall|i: int|
                0 <= i < 3 ==> ((#[trigger] self.v(i)).texture matches Some(uv) ==> 0 <= uv.x
                    <= FP_ONE && 0 <= uv.y <= FP_ONE),
        ensures
            final(image).wf(),
            final(image)@.width == old(image)@.width,
            final(image)@.height == old(image)@.height,
            match res {
                Ok(_) => {
                    &&& (texture is Some ==> self.has_uvs())
                    &&& (texture is None ==> final(image)@ == spec_draw(
                        old(image)@, *self, light_dir, color, None::<ImageV>))
                    &&& (texture matches Some(t) ==> final(image)@ == spec_draw(
                        old(image)@, *self, light_dir, color, Some(t@)))
                },
                Err(e) => {
                    &&& e == DrawError::MissingTextureCoords
                    &&& texture is Some
                    &&& !self.has_uvs()
                    &&& final(image)@ == old(image)@
                },
            },
    {
        let ghost v_old: ImageV = image@;
        let ghost texv: Option<ImageV> = match texture {
            Some(t) => Some(t@),
            None => None,
        };
        proof {
            assert(self.v(0) == self.vertices@[0]);
            assert(self.v(1) == self.vertices@[1]);
            assert(self.v(2) == self.vertices@[2]);
        }

        // With a texture bound, texture coordinates must be present.
        if texture.is_some() {
            if self.vertices[0].texture.is_none() || self.vertices[1].texture.is_none()
                || self.vertices[2].texture.is_none() {
                return Err(DrawError::MissingTextureCoords);
            }
            proof {
                assert forall|i: int| 0 <= i < 3 implies (#[trigger] self.v(i)).texture
                    is Some by {
                    if i == 0 {
                        assert(self.v(0).texture is Some);
                    } else if i == 1 {
                        assert(self.v(1).texture is Some);
                    } else {
                        assert(self.v(2).texture is Some);
                    }
                }
            }
        }

        // Whole-triangle back-face cull: the sign of the unnormalized
        // intensity equals the sign of the normalized one.
        let normal = self.surface_normal();
        proof {
            lemma_mul_bound(normal.x as int, light_dir.x as int, 2251799813685248, 16777216,
                37778931862957161709568);
            lemma_mul_bound(normal.y as int, light_dir.y as int, 2251799813685248, 16777216,
                37778931862957161709568);
            lemma_mul_bound(normal.z as int, light_dir.z as int, 2251799813685248, 16777216,
                37778931862957161709568);
        }
        let intensity: i128 = (normal.x as i128) * (light_dir.x as i128) + (normal.y as i128)
            * (light_dir.y as i128) + (normal.z as i128) * (light_dir.z as i128);
        proof {
            assert(intensity as int == self.spec_intensity(light_dir));
        }
        if intensity <= 0 {
            return Ok(());
        }

        // Truncated pixel coordinates of the screen vertices.
        proof {
            assert(self.v(0).screen_bounded());
            assert(self.v(1).screen_bounded());
            assert(self.v(2).screen_bounded());
            lemma_tdiv_bound(self.v(0).screen_coords.x as int, 65536, 17179869184);
            lemma_tdiv_bound(self.v(0).screen_coords.y as int, 65536, 17179869184);
            lemma_tdiv_bound(self.v(1).screen_coords.x as int, 65536, 17179869184);
            lemma_tdiv_bound(self.v(1).screen_coords.y as int, 65536, 17179869184);
            lemma_tdiv_bound(self.v(2).screen_coords.x as int, 65536, 17179869184);
            lemma_tdiv_bound(self.v(2).screen_coords.y as int, 65536, 17179869184);
        }
        let sx0: i32 = (self.vertices[0].screen_coords.x / FP_ONE) as i32;
        let sy0: i32 = (self.vertices[0].screen_coords.y / FP_ONE) as i32;
        let sx1: i32 = (self.vertices[1].screen_coords.x / FP_ONE) as i32;
        let sy1: i32 = (self.vertices[1].screen_coords.y / FP_ONE) as i32;
        let sx2: i32 = (self.vertices[2].screen_coords.x / FP_ONE) as i32;
        let sy2: i32 = (self.vertices[2].screen_coords.y / FP_ONE) as i32;
        proof {
            assert(sx0 as int == self.sx(0));
            assert(sy0 as int == self.sy(0));
            assert(sx1 as int == self.sx(1));
            assert(sy1 as int == self.sy(1));
            assert(sx2 as int == self.sx(2));
            assert(sy2 as int == self.sy(2));
        }

        // Degenerate check: zero signed area contributes no pixels.
        proof {
            lemma_mul_bound(sx2 - sx0, sy1 - sy0, 524288, 524288, 274877906944);
            lemma_mul_bound(sx1 - sx0, sy2 - sy0, 524288, 524288, 274877906944);
        }
        let den: i64 = ((sx2 as i64) - (sx0 as i64)) * ((sy1 as i64) - (sy0 as i64)) - ((sx1
            as i64) - (sx0 as i64)) * ((sy2 as i64) - (sy0 as i64));
        proof {
            assert(den as int == self.den());
        }
        if den == 0 {
            return Ok(());
        }

        // Clipped bounding box of the screen projection.
        let bbox = self.find_bounding_box();
        let cbox = self.clip_bounding_box(bbox, image);
        let x_min: i32 = cbox[0].x;
        let x_max: i32 = cbox[3].x;
        let y_min: i32 = cbox[0].y;
        let y_max: i32 = cbox[2].y;
        proof {
            assert(x_min as int == self.scan_x0(v_old.width));
            assert(x_max as int == self.scan_x1(v_old.width));
            assert(y_min as int == self.scan_y0(v_old.height));
            assert(y_max as int == self.scan_y1(v_old.height));
        }

        // Screen depths, and texel coordinates of each vertex when a
        // texture is bound.
        let z0: i64 = self.vertices[0].screen_coords.z;
        let z1: i64 = self.vertices[1].screen_coords.z;
        let z2: i64 = self.vertices[2].screen_coords.z;
        let mut tu0: i64 = 0;
        let mut tv0: i64 = 0;
        let mut tu1: i64 = 0;
        let mut tv1: i64 = 0;
        let mut tu2: i64 = 0;
        let mut tv2: i64 = 0;
        if let Some(tex) = texture {
            let sv0 = self.vertices[0].scale_to_texture(tex.width, tex.height);
            match sv0.screen_texture {
                Some(st) => {
                    tu0 = st.x;
                    tv0 = st.y;
                },
                None => {
                    proof {
                        assert(false);
                    }
                },
            }
            let sv1 = self.vertices[1].scale_to_texture(tex.width, tex.height);
            match sv1.screen_texture {
                Some(st) => {
                    tu1 = st.x;
                    tv1 = st.y;
                },
                None => {
                    proof {
                        assert(false);
                    }
                },
            }
            let sv2 = self.vertices[2].scale_to_texture(tex.width, tex.height);
            match sv2.screen_texture {
                Some(st) => {
                    tu2 = st.x;
                    tv2 = st.y;
                },
                None => {
                    proof {
                        assert(false);
                    }
                },
            }
        }

        let t0 = Vec2 { x: sx0, y: sy0 };
        let t1 = Vec2 { x: sx1, y: sy1 };
        let t2 = Vec2 { x: sx2, y: sy2 };

        // Scan every pixel of the clipped box, row-major within each
        // column, half-open ranges.
        let mut x: i32 = x_min;
        while x < x_max
            invariant
                x_min <= x <= x_max,
                image@.wf(),
                image@.width == v_old.width,
                image@.height == v_old.height,
                forall|i: int|
                    0 <= i < v_old.depths.len() ==> #[trigger] image@.depths[i] == (if scanned(
                        *self, v_old.width, v_old.height, x as int,
                        self.scan_y0(v_old.height), i % v_old.width, i / v_old.width) {
                        cell_depth(*self, v_old, i)
                    } else {
                        v_old.depths[i]
                    }),
                forall|i: int|
                    0 <= i < v_old.colors.len() ==> #[trigger] image@.colors[i] == (if scanned(
                        *self, v_old.width, v_old.height, x as int,
                        self.scan_y0(v_old.height), i % v_old.width, i / v_old.width) {
                        cell_color(*self, v_old, texv, color, i)
                    } else {
                        v_old.colors[i]
                    }),
            decreases x_max - x,
        {
            let mut y: i32 = y_min;
            while y < y_max
                invariant
                    x_min <= x < x_max,
                    y_min <= y <= y_max,
                    image@.wf(),
                    image@.width == v_old.width,
                    image@.height == v_old.height,
                    forall|i: int|
                        0 <= i < v_old.depths.len() ==> #[trigger] image@.depths[i] == (
                        if scanned(*self, v_old.width, v_old.height, x as int, y as int,
                            i % v_old.width, i / v_old.width) {
                            cell_depth(*self, v_old, i)
                        } else {
                            v_old.depths[i]
                        }),
                    forall|i: int|
                        0 <= i < v_old.colors.len() ==> #[trigger] image@.colors[i] == (
                        if scanned(*self, v_old.width, v_old.height, x as int, y as int,
                            i % v_old.width, i / v_old.width) {
                            cell_color(*self, v_old, texv, color, i)
                        } else {
                            v_old.colors[i]
                        }),
                decreases y_max - y,
            {
                let ghost idx: int = (y as int) * v_old.width + (x as int);
                proof {
                    crate::image::lemma_row_major(x as int, y as int, v_old.width,
                        v_old.height);
                    assert(image@.depths[idx] == v_old.depths[idx]);
                    assert(image@.colors[idx] == v_old.colors[idx]);
                }
                let ghost pre: ImageV = image@;
                self.raster_pixel(image, x, y, den, t0, t1, t2, z0, z1, z2, tu0, tv0, tu1,
                    tv1, tu2, tv2, color, texture);
                proof {
                    assert forall|i: int| 0 <= i < v_old.depths.len() implies image@.depths[i]
                        == (if scanned(*self, v_old.width, v_old.height, x as int,
                            y as int + 1, i % v_old.width, i / v_old.width) {
                            cell_depth(*self, v_old, i)
                        } else {
                            v_old.depths[i]
                        }) by {
                        vstd::arithmetic::div_mod::lemma_fundamental_div_mod(i, v_old.width);
                        if i == idx {
                            assert(i % v_old.width == x as int);
                            assert(i / v_old.width == y as int);
                        } else {
                            assert(i == v_old.width * (i / v_old.width) + i % v_old.width);
                            assert(v_old.width * (y as int) == (y as int) * v_old.width)
                                by (nonlinear_arith);
                            assert(!(i % v_old.width == x as int && i / v_old.width == y
                                as int));
                            assert(image@.depths[i] == pre.depths[i]);
                        }
                    }
                    assert forall|i: int| 0 <= i < v_old.colors.len() implies image@.colors[i]
                        == (if scanned(*self, v_old.width, v_old.height, x as int,
                            y as int + 1, i % v_old.width, i / v_old.width) {
                            cell_color(*self, v_old, texv, color, i)
                        } else {
                            v_old.colors[i]
                        }) by {
                        vstd::arithmetic::div_mod::lemma_fundamental_div_mod(i, v_old.width);
                        if i == idx {
                            assert(i % v_old.width == x as int);
                            assert(i / v_old.width == y as int);
                        } else {
                            assert(i == v_old.width * (i / v_old.width) + i % v_old.width);
                            assert(v_old.width * (y as int) == (y as int) * v_old.width)
                                by (nonlinear_arith);
                            assert(!(i % v_old.width == x as int && i / v_old.width == y
                                as int));
                            assert(image@.colors[i] == pre.colors[i]);
                        }
                    }
                }
                y = y + 1;
            }
            proof {
                assert forall|i: int| 0 <= i < v_old.depths.len() implies image@.depths[i] == (
                if scanned(*self, v_old.width, v_old.height, x as int + 1,
                    self.scan_y0(v_old.height), i % v_old.width, i / v_old.width) {
                    cell_depth(*self, v_old, i)
                } else {
                    v_old.depths[i]
                }) by {}
                assert forall|i: int| 0 <= i < v_old.colors.len() implies image@.colors[i] == (
                if scanned(*self, v_old.width, v_old.height, x as int + 1,
                    self.scan_y0(v_old.height), i % v_old.width, i / v_old.width) {
                    cell_color(*self, v_old, texv, color, i)
                } else {
                    v_old.colors[i]
                }) by {}
            }
            x = x + 1;
        }
        proof {
            let target = spec_draw(v_old, *self, light_dir, color, texv);
            assert forall|i: int| 0 <= i < v_old.depths.len() implies image@.depths[i]
                == cell_depth(*self, v_old, i) by {}
            assert forall|i: int| 0 <= i < v_old.colors.len() implies image@.colors[i]
                == cell_color(*self, v_old, texv, color, i) by {}
            assert(image@.depths =~= target.depths);
            assert(image@.colors =~= target.colors);
            assert(image@ =~= target);
        }
        Ok(())
    }
}

/// The edge function of the directed edge `(t0, t1)` at `p`, exact.
pub fn barycentric(t0: &Vec3<i32>, t1: &Vec3<i32>, p: &Vec3<i32>) -> (r: i64)
    requires
        -PIX_LIMIT <= t0.x <= PIX_LIMIT,
        -PIX_LIMIT <= t0.y <= PIX_LIMIT,
        -PIX_LIMIT <= t1.x <= PIX_LIMIT,
        -PIX_LIMIT <= t1.y <= PIX_LIMIT,
        -PIX_LIMIT <= p.x <= PIX_LIMIT,
        -PIX_LIMIT <= p.y <= PIX_LIMIT,
    ensures
        r as int == spec_edge(t0.x as int, t0.y as int, t1.x as int, t1.y as int, p.x as int,
            p.y as int),
{
    proof {
        lemma_mul_bound(t1.x - t0.x, p.y - t0.y, 524288, 524288, 274877906944);
        lemma_mul_bound(t1.y - t0.y, p.x - t0.x, 524288, 524288, 274877906944);
    }
    ((t1.x as i64) - (t0.x as i64)) * ((p.y as i64) - (t0.y as i64)) - ((t1.y as i64) - (t0.y
        as i64)) * ((p.x as i64) - (t0.x as i64))
}

/// The exact barycentric numerators `(n0, n1, n2)` and denominator of
/// point `p` against the triangle `(t0, t1, t2)`: the weight of vertex
/// `i` is `n_i / den`, the numerators sum to the denominator, and all
/// results stay within [`BARY_LIMIT`].
pub fn new_barycentric(t0: &Vec2<i32>, t1: &Vec2<i32>, t2: &Vec2<i32>, p: &Vec2<i32>) -> (r: (
    Vec3<i64>, i64))
    requires
        -PIX_LIMIT <= t0.x <= PIX_LIMIT,
        -PIX_LIMIT <= t0.y <= PIX_LIMIT,
        -PIX_LIMIT <= t1.x <= PIX_LIMIT,
        -PIX_LIMIT <= t1.y <= PIX_LIMIT,
        -PIX_LIMIT <= t2.x <= PIX_LIMIT,
        -PIX_LIMIT <= t2.y <= PIX_LIMIT,
        -PIX_LIMIT <= p.x <= PIX_LIMIT,
        -PIX_LIMIT <= p.y <= PIX_LIMIT,
    ensures
        r.0.x as int == bary_n0(t0.x as int, t0.y as int, t1.x as int, t1.y as int, t2.x as int,
            t2.y as int, p.x as int, p.y as int),
        r.0.y as int == bary_n1(t0.x as int, t0.y as int, t2.x as int, t2.y as int, p.x as int,
            p.y as int),
        r.0.z as int == bary_n2(t0.x as int, t0.y as int, t1.x as int, t1.y as int, p.x as int,
            p.y as int),
        r.1 as int == bary_den(t0.x as int, t0.y as int, t1.x as int, t1.y as int, t2.x as int,
            t2.y as int),
        r.0.x as int + r.0.y as int + r.0.z as int == r.1 as int,
        -BARY_LIMIT <= r.0.x <= BARY_LIMIT,
        -BARY_LIMIT <= r.0.y <= BARY_LIMIT,
        -BARY_LIMIT <= r.0.z <= BARY_LIMIT,
        -BARY_LIMIT <= r.1 <= BARY_LIMIT,
{
    let a = Vec3 {
        x: ((t2.x as i64) - (t0.x as i64)),
        y: ((t1.x as i64) - (t0.x as i64)),
        z: ((t0.x as i64) - (p.x as i64)),
    };
    let b = Vec3 {
        x: ((t2.y as i64) - (t0.y as i64)),
        y: ((t1.y as i64) - (t0.y as i64)),
        z: ((t0.y as i64) - (p.y as i64)),
    };
    proof {
        lemma_mul_bound(a.y as int, b.z as int, 524288, 524288, 274877906944);
        lemma_mul_bound(a.z as int, b.y as int, 524288, 524288, 274877906944);
        lemma_mul_bound(a.z as int, b.x as int, 524288, 524288, 274877906944);
        lemma_mul_bound(a.x as int, b.z as int, 524288, 524288, 274877906944);
        lemma_mul_bound(a.x as int, b.y as int, 524288, 524288, 274877906944);
        lemma_mul_bound(a.y as int, b.x as int, 524288, 524288, 274877906944);
    }
    let cross = cross_product(a, b);
    let n0: i64 = cross.z - cross.x - cross.y;
    (Vec3 { x: n0, y: cross.y, z: cross.x }, cross.z)
}

} // verus!
