//! Exact integer vectors and matrices for the pipeline's geometry.
//!
//! Chunk and voxel coordinates are integer-valued, so all culling and
//! orientation decisions can be made over `i64` arithmetic with no rounding.
//! Magnitude bounds on the inputs keep every intermediate product inside
//! `i64`.

use vstd::prelude::*;

verus! {

/// Bound on the coordinates of world-space points accepted by the vector
/// helpers (2^20); differences, squares and four-term sums of in-range
/// coordinates stay well inside `i64`.
pub const COORD_LIMIT: i64 = 0x10_0000;

/// Bound on the second argument of `cross` (2^41): large enough for a cross
/// product of bounded vectors to be crossed again, small enough that the
/// products still fit in `i64`.
pub const CROSS_ARG_LIMIT: i64 = 0x200_0000_0000;

/// Bound on the components of a projected point with in-range matrix and
/// position: three products of bounded factors plus a translation term.
pub const PROJECT_LIMIT: i64 = 3 * COORD_LIMIT * COORD_LIMIT + COORD_LIMIT;

/// A three-component integer vector (world or clip coordinates).
#[derive(Clone, Copy, PartialEq, Eq, Structural, Debug)]
pub struct Vec3I {
    pub x: i64,
    pub y: i64,
    pub z: i64,
}

/// A homogeneous clip-space point `(x, y, z, w)`.
#[derive(Clone, Copy, PartialEq, Eq, Structural, Debug)]
pub struct Vec4I {
    pub x: i64,
    pub y: i64,
    pub z: i64,
    pub w: i64,
}

/// A 4x4 view-projection matrix, row-major: `mRC` is row `R`, column `C`.
#[derive(Clone, Copy, PartialEq, Eq, Structural, Debug)]
pub struct Mat4I {
    pub m00: i64, pub m01: i64, pub m02: i64, pub m03: i64,
    pub m10: i64, pub m11: i64, pub m12: i64, pub m13: i64,
    pub m20: i64, pub m21: i64, pub m22: i64, pub m23: i64,
    pub m30: i64, pub m31: i64, pub m32: i64, pub m33: i64,
}

impl Vec3I {
    pub open spec fn bounded(self, limit: int) -> bool {
        -limit <= self.x <= limit && -limit <= self.y <= limit && -limit <= self.z <= limit
    }

    pub fn new(x: i64, y: i64, z: i64) -> (r: Self)
        ensures
            r == (Vec3I { x, y, z }),
    {
        Vec3I { x, y, z }
    }
}

impl Mat4I {
    pub open spec fn bounded(self, limit: int) -> bool {
        &&& -limit <= self.m00 <= limit && -limit <= self.m01 <= limit
        &&& -limit <= self.m02 <= limit && -limit <= self.m03 <= limit
        &&& -limit <= self.m10 <= limit && -limit <= self.m11 <= limit
        &&& -limit <= self.m12 <= limit && -limit <= self.m13 <= limit
        &&& -limit <= self.m20 <= limit && -limit <= self.m21 <= limit
        &&& -limit <= self.m22 <= limit && -limit <= self.m23 <= limit
        &&& -limit <= self.m30 <= limit && -limit <= self.m31 <= limit
        &&& -limit <= self.m32 <= limit && -limit <= self.m33 <= limit
    }
}

/// Mathematical dot product of two integer vectors.
pub open spec fn dot(a: Vec3I, b: Vec3I) -> int {
    a.x * b.x + a.y * b.y + a.z * b.z
}

/// Mathematical cross product of two integer vectors.
pub open spec fn cross_spec(a: Vec3I, b: Vec3I) -> Vec3I {
    Vec3I {
        x: (a.y * b.z - a.z * b.y) as i64,
        y: (a.z * b.x - a.x * b.z) as i64,
        z: (a.x * b.y - a.y * b.x) as i64,
    }
}

/// Componentwise difference `a - b`.
pub open spec fn sub_spec(a: Vec3I, b: Vec3I) -> Vec3I {
    Vec3I { x: (a.x - b.x) as i64, y: (a.y - b.y) as i64, z: (a.z - b.z) as i64 }
}

/// Squared Euclidean distance between two points.
pub open spec fn dist_sq(a: Vec3I, b: Vec3I) -> int {
    (a.x - b.x) * (a.x - b.x) + (a.y - b.y) * (a.y - b.y) + (a.z - b.z) * (a.z - b.z)
}

pub open spec fn abs_spec(v: int) -> int {
    if v >= 0 {
        v
    } else {
        -v
    }
}

/// The zero-vector test used by the degenerate-geometry guards.
pub open spec fn is_zero(v: Vec3I) -> bool {
    v.x == 0 && v.y == 0 && v.z == 0
}

/// Projection of the world point `p` (with homogeneous coordinate 1) through
/// the matrix `m`.
pub open spec fn project_spec(m: Mat4I, p: Vec3I) -> Vec4I {
    Vec4I {
        x: (m.m00 * p.x + m.m01 * p.y + m.m02 * p.z + m.m03) as i64,
        y: (m.m10 * p.x + m.m11 * p.y + m.m12 * p.z + m.m13) as i64,
        z: (m.m20 * p.x + m.m21 * p.y + m.m22 * p.z + m.m23) as i64,
        w: (m.m30 * p.x + m.m31 * p.y + m.m32 * p.z + m.m33) as i64,
    }
}

pub proof fn lemma_mul_bound(a: int, b: int, la: int, lb: int)
    by (nonlinear_arith)
    requires
        -la <= a <= la,
        -lb <= b <= lb,
        0 <= la,
        0 <= lb,
    ensures
        -(la * lb) <= a * b <= la * lb,
{
}

/// Each component of a cross product is bounded by twice the product of the
/// operands' bounds.
pub proof fn lemma_cross_bounded(a: Vec3I, b: Vec3I, la: int, lb: int)
    requires
        a.bounded(la),
        b.bounded(lb),
        0 <= la,
        0 <= lb,
        2 * la * lb < 0x7fff_ffff_ffff_ffff,
    ensures
        cross_spec(a, b).bounded(2 * la * lb),
{
    lemma_mul_bound(a.y as int, b.z as int, la, lb);
    lemma_mul_bound(a.z as int, b.y as int, la, lb);
    lemma_mul_bound(a.z as int, b.x as int, la, lb);
    lemma_mul_bound(a.x as int, b.z as int, la, lb);
    lemma_mul_bound(a.x as int, b.y as int, la, lb);
    lemma_mul_bound(a.y as int, b.x as int, la, lb);
    assert(2 * la * lb == la * lb + la * lb) by (nonlinear_arith);
}

/// For bounded operands no cross-product component is truncated: each is
/// the exact integer difference of two products.
pub proof fn lemma_cross_exact(a: Vec3I, b: Vec3I, la: int, lb: int)
    requires
        a.bounded(la),
        b.bounded(lb),
        0 <= la,
        0 <= lb,
        2 * la * lb < 0x7fff_ffff_ffff_ffff,
    ensures
        cross_spec(a, b).x == a.y * b.z - a.z * b.y,
        cross_spec(a, b).y == a.z * b.x - a.x * b.z,
        cross_spec(a, b).z == a.x * b.y - a.y * b.x,
{
    lemma_mul_bound(a.y as int, b.z as int, la, lb);
    lemma_mul_bound(a.z as int, b.y as int, la, lb);
    lemma_mul_bound(a.z as int, b.x as int, la, lb);
    lemma_mul_bound(a.x as int, b.z as int, la, lb);
    lemma_mul_bound(a.x as int, b.y as int, la, lb);
    lemma_mul_bound(a.y as int, b.x as int, la, lb);
    assert(2 * la * lb == la * lb + la * lb) by (nonlinear_arith);
}

/// A cross product is perpendicular to both of its operands.
pub proof fn lemma_cross_orthogonal(a: Vec3I, b: Vec3I, la: int, lb: int)
    requires
        a.bounded(la),
        b.bounded(lb),
        0 <= la,
        0 <= lb,
        2 * la * lb < 0x7fff_ffff_ffff_ffff,
    ensures
        dot(cross_spec(a, b), a) == 0,
        dot(cross_spec(a, b), b) == 0,
{
    lemma_cross_exact(a, b, la, lb);
    let c = cross_spec(a, b);
    assert(c.x * a.x + c.y * a.y + c.z * a.z == 0) by (nonlinear_arith)
        requires
            c.x == a.y * b.z - a.z * b.y,
            c.y == a.z * b.x - a.x * b.z,
            c.z == a.x * b.y - a.y * b.x,
    ;
    assert(c.x * b.x + c.y * b.y + c.z * b.z == 0) by (nonlinear_arith)
        requires
            c.x == a.y * b.z - a.z * b.y,
            c.y == a.z * b.x - a.x * b.z,
            c.z == a.x * b.y - a.y * b.x,
    ;
}

/// The cross product of two nonzero perpendicular vectors is nonzero: were
/// it zero the operands would be parallel, and a nonzero vector has no
/// nonzero perpendicular parallel to it.
pub proof fn lemma_cross_nonzero(a: Vec3I, b: Vec3I, la: int, lb: int)
    requires
        a.bounded(la),
        b.bounded(lb),
        0 <= la,
        0 <= lb,
        2 * la * lb < 0x7fff_ffff_ffff_ffff,
        dot(a, b) == 0,
        !is_zero(a),
        !is_zero(b),
    ensures
        !is_zero(cross_spec(a, b)),
{
    lemma_cross_exact(a, b, la, lb);
    let c = cross_spec(a, b);
    if c.x == 0 && c.y == 0 && c.z == 0 {
        let s = a.x * a.x + a.y * a.y + a.z * a.z;
        assert(s > 0) by (nonlinear_arith)
            requires
                !(a.x == 0 && a.y == 0 && a.z == 0),
                s == a.x * a.x + a.y * a.y + a.z * a.z,
        ;
        assert(s * b.x == 0) by (nonlinear_arith)
            requires
                s == a.x * a.x + a.y * a.y + a.z * a.z,
                a.x * b.x + a.y * b.y + a.z * b.z == 0,
                a.x * b.y - a.y * b.x == 0,
                a.z * b.x - a.x * b.z == 0,
        ;
        assert(s * b.y == 0) by (nonlinear_arith)
            requires
                s == a.x * a.x + a.y * a.y + a.z * a.z,
                a.x * b.x + a.y * b.y + a.z * b.z == 0,
                a.x * b.y - a.y * b.x == 0,
                a.y * b.z - a.z * b.y == 0,
        ;
        assert(s * b.z == 0) by (nonlinear_arith)
            requires
                s == a.x * a.x + a.y * a.y + a.z * a.z,
                a.x * b.x + a.y * b.y + a.z * b.z == 0,
                a.z * b.x - a.x * b.z == 0,
                a.y * b.z - a.z * b.y == 0,
        ;
        assert(b.x == 0 && b.y == 0 && b.z == 0) by (nonlinear_arith)
            requires
                s > 0,
                s * b.x == 0,
                s * b.y == 0,
                s * b.z == 0,
        ;
    }
}

/// Componentwise difference, proved exact (no wrap-around).
pub fn vec_sub(a: Vec3I, b: Vec3I) -> (r: Vec3I)
    requires
        a.bounded(COORD_LIMIT as int),
        b.bounded(COORD_LIMIT as int),
    ensures
        r == sub_spec(a, b),
        r.x == a.x - b.x && r.y == a.y - b.y && r.z == a.z - b.z,
        r.bounded(2 * COORD_LIMIT as int),
{
    Vec3I { x: a.x - b.x, y: a.y - b.y, z: a.z - b.z }
}

/// Cross product, proved exact for bounded inputs. The asymmetric bounds let
/// the result of one bounded cross product stand as the second argument of
/// another.
pub fn cross(a: Vec3I, b: Vec3I) -> (r: Vec3I)
    requires
        a.bounded(COORD_LIMIT as int),
        b.bounded(CROSS_ARG_LIMIT as int),
    ensures
        r == cross_spec(a, b),
        r.x == a.y * b.z - a.z * b.y,
        r.y == a.z * b.x - a.x * b.z,
        r.z == a.x * b.y - a.y * b.x,
{
    proof {
        lemma_mul_bound(a.y as int, b.z as int, COORD_LIMIT as int, CROSS_ARG_LIMIT as int);
        lemma_mul_bound(a.z as int, b.y as int, COORD_LIMIT as int, CROSS_ARG_LIMIT as int);
        lemma_mul_bound(a.z as int, b.x as int, COORD_LIMIT as int, CROSS_ARG_LIMIT as int);
        lemma_mul_bound(a.x as int, b.z as int, COORD_LIMIT as int, CROSS_ARG_LIMIT as int);
        lemma_mul_bound(a.x as int, b.y as int, COORD_LIMIT as int, CROSS_ARG_LIMIT as int);
        lemma_mul_bound(a.y as int, b.x as int, COORD_LIMIT as int, CROSS_ARG_LIMIT as int);
    }
    Vec3I { x: a.y * b.z - a.z * b.y, y: a.z * b.x - a.x * b.z, z: a.x * b.y - a.y * b.x }
}

/// Squared distance between two bounded points, proved exact.
pub fn distance_squared(a: Vec3I, b: Vec3I) -> (r: i64)
    requires
        a.bounded(COORD_LIMIT as int),
        b.bounded(COORD_LIMIT as int),
    ensures
        r == dist_sq(a, b),
        r >= 0,
{
    let dx: i64 = a.x - b.x;
    let dy: i64 = a.y - b.y;
    let dz: i64 = a.z - b.z;
    proof {
        lemma_mul_bound(dx as int, dx as int, 2 * COORD_LIMIT as int, 2 * COORD_LIMIT as int);
        lemma_mul_bound(dy as int, dy as int, 2 * COORD_LIMIT as int, 2 * COORD_LIMIT as int);
        lemma_mul_bound(dz as int, dz as int, 2 * COORD_LIMIT as int, 2 * COORD_LIMIT as int);
        assert(dx * dx >= 0 && dy * dy >= 0 && dz * dz >= 0) by (nonlinear_arith);
    }
    dx * dx + dy * dy + dz * dz
}

/// Projection through a view-projection matrix, proved exact.
pub fn project(m: &Mat4I, p: Vec3I) -> (r: Vec4I)
    requires
        m.bounded(COORD_LIMIT as int),
        p.bounded(COORD_LIMIT as int),
    ensures
        r == project_spec(*m, p),
        r.x == m.m00 * p.x + m.m01 * p.y + m.m02 * p.z + m.m03,
        r.y == m.m10 * p.x + m.m11 * p.y + m.m12 * p.z + m.m13,
        r.z == m.m20 * p.x + m.m21 * p.y + m.m22 * p.z + m.m23,
        r.w == m.m30 * p.x + m.m31 * p.y + m.m32 * p.z + m.m33,
        -PROJECT_LIMIT <= r.x <= PROJECT_LIMIT,
        -PROJECT_LIMIT <= r.y <= PROJECT_LIMIT,
        -PROJECT_LIMIT <= r.z <= PROJECT_LIMIT,
        -PROJECT_LIMIT <= r.w <= PROJECT_LIMIT,
{
    proof {
        lemma_mul_bound(m.m00 as int, p.x as int, COORD_LIMIT as int, COORD_LIMIT as int);
        lemma_mul_bound(m.m01 as int, p.y as int, COORD_LIMIT as int, COORD_LIMIT as int);
        lemma_mul_bound(m.m02 as int, p.z as int, COORD_LIMIT as int, COORD_LIMIT as int);
        lemma_mul_bound(m.m10 as int, p.x as int, COORD_LIMIT as int, COORD_LIMIT as int);
        lemma_mul_bound(m.m11 as int, p.y as int, COORD_LIMIT as int, COORD_LIMIT as int);
        lemma_mul_bound(m.m12 as int, p.z as int, COORD_LIMIT as int, COORD_LIMIT as int);
        lemma_mul_bound(m.m20 as int, p.x as int, COORD_LIMIT as int, COORD_LIMIT as int);
        lemma_mul_bound(m.m21 as int, p.y as int, COORD_LIMIT as int, COORD_LIMIT as int);
        lemma_mul_bound(m.m22 as int, p.z as int, COORD_LIMIT as int, COORD_LIMIT as int);
        lemma_mul_bound(m.m30 as int, p.x as int, COORD_LIMIT as int, COORD_LIMIT as int);
        lemma_mul_bound(m.m31 as int, p.y as int, COORD_LIMIT as int, COORD_LIMIT as int);
        lemma_mul_bound(m.m32 as int, p.z as int, COORD_LIMIT as int, COORD_LIMIT as int);
    }
    Vec4I {
        x: m.m00 * p.x + m.m01 * p.y + m.m02 * p.z + m.m03,
        y: m.m10 * p.x + m.m11 * p.y + m.m12 * p.z + m.m13,
        z: m.m20 * p.x + m.m21 * p.y + m.m22 * p.z + m.m23,
        w: m.m30 * p.x + m.m31 * p.y + m.m32 * p.z + m.m33,
    }
}

} // verus!
