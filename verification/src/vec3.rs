//! Fixed-point 2- and 3-component vectors.

use vstd::prelude::*;
use vstd::arithmetic::div_mod::*;
use crate::fixed::{SCALE, isqrt, spec_isqrt, spec_tdiv, tdiv};

verus! {

/// Bound within which vector products are free of overflow.
pub const VEC_LIMIT: i64 = 1_000_000_000;

/// A 2D fixed-point vector (screen position, or a point on the terrain
/// plane with `y` holding the world `z` coordinate).
#[derive(Clone, Copy, Debug, PartialEq, Eq, Structural)]
pub struct Vec2Fp {
    pub x: i64,
    pub y: i64,
}

/// A 3D fixed-point vector.
#[derive(Clone, Copy, Debug, PartialEq, Eq, Structural)]
pub struct Vec3Fp {
    pub x: i64,
    pub y: i64,
    pub z: i64,
}

impl Vec2Fp {
    /// All components within `[-b, b]`.
    pub open spec fn bounded(self, b: int) -> bool {
        -b <= self.x <= b && -b <= self.y <= b
    }

    pub fn new(x: i64, y: i64) -> (r: Vec2Fp)
        ensures
            r == (Vec2Fp { x, y }),
    {
        Vec2Fp { x, y }
    }
}

impl Vec3Fp {
    /// All components within `[-b, b]`.
    pub open spec fn bounded(self, b: int) -> bool {
        -b <= self.x <= b && -b <= self.y <= b && -b <= self.z <= b
    }

    pub fn new(x: i64, y: i64, z: i64) -> (r: Vec3Fp)
        ensures
            r == (Vec3Fp { x, y, z }),
    {
        Vec3Fp { x, y, z }
    }

    pub fn zero() -> (r: Vec3Fp)
        ensures
            r == spec_vec3_zero(),
    {
        Vec3Fp { x: 0, y: 0, z: 0 }
    }

    /// Component-wise sum.
    pub fn add(self, o: Vec3Fp) -> (r: Vec3Fp)
        requires
            i64::MIN <= self.x + o.x <= i64::MAX,
            i64::MIN <= self.y + o.y <= i64::MAX,
            i64::MIN <= self.z + o.z <= i64::MAX,
        ensures
            r.x == self.x + o.x,
            r.y == self.y + o.y,
            r.z == self.z + o.z,
    {
        Vec3Fp { x: self.x + o.x, y: self.y + o.y, z: self.z + o.z }
    }

    /// Each component multiplied by `m` and divided (toward zero) by `d`.
    pub fn scale_div(self, m: i64, d: i64) -> (r: Vec3Fp)
        requires
            d > 0,
            self.bounded(VEC_LIMIT as int),
            -VEC_LIMIT <= m <= VEC_LIMIT,
        ensures
            r == self.spec_scale_div(m as int, d as int),
    {
        proof {
            lemma_abs_mul_bound(self.x as int, m as int, VEC_LIMIT as int, VEC_LIMIT as int);
            lemma_abs_mul_bound(self.y as int, m as int, VEC_LIMIT as int, VEC_LIMIT as int);
            lemma_abs_mul_bound(self.z as int, m as int, VEC_LIMIT as int, VEC_LIMIT as int);
        }
        Vec3Fp { x: tdiv(self.x * m, d), y: tdiv(self.y * m, d), z: tdiv(self.z * m, d) }
    }

    /// Spec form of [`Vec3Fp::scale_div`].
    pub open spec fn spec_scale_div(self, m: int, d: int) -> Vec3Fp {
        Vec3Fp {
            x: spec_tdiv(self.x * m, d) as i64,
            y: spec_tdiv(self.y * m, d) as i64,
            z: spec_tdiv(self.z * m, d) as i64,
        }
    }

    /// Dot product, as a mathematical integer via the contract.
    pub fn dot(self, o: Vec3Fp) -> (r: i64)
        requires
            self.bounded(VEC_LIMIT as int),
            o.bounded(VEC_LIMIT as int),
        ensures
            r == self.x * o.x + self.y * o.y + self.z * o.z,
    {
        proof {
            lemma_abs_mul_bound(self.x as int, o.x as int, VEC_LIMIT as int, VEC_LIMIT as int);
            lemma_abs_mul_bound(self.y as int, o.y as int, VEC_LIMIT as int, VEC_LIMIT as int);
            lemma_abs_mul_bound(self.z as int, o.z as int, VEC_LIMIT as int, VEC_LIMIT as int);
        }
        self.x * o.x + self.y * o.y + self.z * o.z
    }

    /// Cross product.
    pub fn cross(self, o: Vec3Fp) -> (r: Vec3Fp)
        requires
            self.bounded(VEC_LIMIT as int),
            o.bounded(VEC_LIMIT as int),
        ensures
            r.x == self.y * o.z - self.z * o.y,
            r.y == self.z * o.x - self.x * o.z,
            r.z == self.x * o.y - self.y * o.x,
    {
        proof {
            lemma_abs_mul_bound(self.y as int, o.z as int, VEC_LIMIT as int, VEC_LIMIT as int);
            lemma_abs_mul_bound(self.z as int, o.y as int, VEC_LIMIT as int, VEC_LIMIT as int);
            lemma_abs_mul_bound(self.z as int, o.x as int, VEC_LIMIT as int, VEC_LIMIT as int);
            lemma_abs_mul_bound(self.x as int, o.z as int, VEC_LIMIT as int, VEC_LIMIT as int);
            lemma_abs_mul_bound(self.x as int, o.y as int, VEC_LIMIT as int, VEC_LIMIT as int);
            lemma_abs_mul_bound(self.y as int, o.x as int, VEC_LIMIT as int, VEC_LIMIT as int);
        }
        Vec3Fp {
            x: self.y * o.z - self.z * o.y,
            y: self.z * o.x - self.x * o.z,
            z: self.x * o.y - self.y * o.x,
        }
    }

    /// Squared Euclidean length, as spec.
    pub open spec fn spec_len_sq(self) -> int {
        self.x * self.x + self.y * self.y + self.z * self.z
    }

    /// Rescales the vector to length about `SCALE`; the zero vector stays zero.
    pub fn norm_or_zero(self) -> (r: Vec3Fp)
        requires
            self.bounded(VEC_LIMIT as int),
        ensures
            r == self.spec_norm_or_zero(),
            r.bounded(SCALE as int),
    {
        proof {
            lemma_abs_mul_bound(self.x as int, self.x as int, VEC_LIMIT as int, VEC_LIMIT as int);
            lemma_abs_mul_bound(self.y as int, self.y as int, VEC_LIMIT as int, VEC_LIMIT as int);
            lemma_abs_mul_bound(self.z as int, self.z as int, VEC_LIMIT as int, VEC_LIMIT as int);
            lemma_square_nonneg(self.x as int);
            lemma_square_nonneg(self.y as int);
            lemma_square_nonneg(self.z as int);
        }
        let sq = self.x * self.x + self.y * self.y + self.z * self.z;
        let len_u = isqrt(sq as u64);
        let len = len_u as i64;
        if len == 0 {
            proof {
                assert(self.spec_len_sq() == sq as int);
            }
            Vec3Fp { x: 0, y: 0, z: 0 }
        } else {
            proof {
                lemma_component_le_root(self.x as int, sq as int, len as int);
                lemma_component_le_root(self.y as int, sq as int, len as int);
                lemma_component_le_root(self.z as int, sq as int, len as int);
                lemma_tdiv_scale_bound(self.x as int, len as int);
                lemma_tdiv_scale_bound(self.y as int, len as int);
                lemma_tdiv_scale_bound(self.z as int, len as int);
            }
            Vec3Fp {
                x: tdiv(self.x * SCALE, len),
                y: tdiv(self.y * SCALE, len),
                z: tdiv(self.z * SCALE, len),
            }
        }
    }

    /// Spec form of [`Vec3Fp::norm_or_zero`].
    pub open spec fn spec_norm_or_zero(self) -> Vec3Fp {
        let len = spec_isqrt(self.spec_len_sq());
        if len == 0 {
            spec_vec3_zero()
        } else {
            Vec3Fp {
                x: spec_tdiv(self.x * SCALE, len) as i64,
                y: spec_tdiv(self.y * SCALE, len) as i64,
                z: spec_tdiv(self.z * SCALE, len) as i64,
            }
        }
    }
}

/// The zero vector.
pub open spec fn spec_vec3_zero() -> Vec3Fp {
    Vec3Fp { x: 0, y: 0, z: 0 }
}

/// `|a| <= ca` and `|b| <= cb` bound the product by `ca * cb`.
pub proof fn lemma_abs_mul_bound(a: int, b: int, ca: int, cb: int)
    requires
        -ca <= a <= ca,
        -cb <= b <= cb,
    ensures
        -(ca * cb) <= a * b <= ca * cb,
{
    assert(-(ca * cb) <= a * b <= ca * cb) by (nonlinear_arith)
        requires
            -ca <= a <= ca,
            -cb <= b <= cb,
    {}
}

/// Squares are nonnegative.
pub proof fn lemma_square_nonneg(a: int)
    ensures
        a * a >= 0,
{
    assert(a * a >= 0) by (nonlinear_arith) {}
}

/// A component's magnitude is at most the root of the squared length.
proof fn lemma_component_le_root(c: int, sq: int, len: int)
    requires
        c * c <= sq,
        len >= 0,
        sq < (len + 1) * (len + 1),
    ensures
        -len <= c <= len,
{
    assert(-len <= c <= len) by (nonlinear_arith)
        requires
            c * c <= sq,
            len >= 0,
            sq < (len + 1) * (len + 1),
    {}
}

/// Scaling a component no larger than the length keeps it within `SCALE`.
proof fn lemma_tdiv_scale_bound(c: int, len: int)
    requires
        len > 0,
        -len <= c <= len,
    ensures
        -SCALE <= spec_tdiv(c * SCALE, len) <= SCALE,
{
    if c >= 0 {
        assert(c * SCALE <= len * SCALE) by (nonlinear_arith)
            requires
                0 <= c <= len,
        {}
        lemma_div_pos_is_pos(c * SCALE, len);
        lemma_div_is_ordered(c * SCALE, len * SCALE, len);
        lemma_div_multiples_vanish(SCALE as int, len);
        assert(c * SCALE >= 0) by (nonlinear_arith)
            requires
                c >= 0,
        {}
    } else {
        let m = -c;
        assert(m * SCALE <= len * SCALE && m * SCALE >= 0 && -(c * SCALE) == m * SCALE)
            by (nonlinear_arith)
            requires
                0 <= m <= len,
                m == -c,
        {}
        lemma_div_pos_is_pos(m * SCALE, len);
        lemma_div_is_ordered(m * SCALE, len * SCALE, len);
        lemma_div_multiples_vanish(SCALE as int, len);
    }
}

} // verus!
