//! Fixed-point 4x4 matrices and the per-frame transform block uploaded to
//! the rendering collaborator.

use vstd::prelude::*;
use crate::camera::{Camera, NEAR_PLANE, FAR_PLANE, TAN_HALF_FOV, VIEW_MAX, POS_LIMIT};
use crate::fixed::{
    SCALE, cos_fp, sin_fp, spec_cos, spec_sin, spec_tdiv, tdiv, lemma_sin_bounds, lemma_cos_bounds,
    lemma_tdiv_bound,
};
use crate::vec3::{Vec3Fp, lemma_abs_mul_bound};
use vstd::arithmetic::div_mod::{lemma_div_pos_is_pos, lemma_div_is_ordered, lemma_div_multiples_vanish};

verus! {

/// Bound on the entries a matrix product accepts.
pub const MAT_LIMIT: i64 = 1_500_000_000;

/// A row-major fixed-point 4x4 matrix; `SCALE` is 1.0.
#[derive(Clone, Copy, Debug, PartialEq, Eq, Structural)]
pub struct Mat4Fp {
    pub m00: i64, pub m01: i64, pub m02: i64, pub m03: i64,
    pub m10: i64, pub m11: i64, pub m12: i64, pub m13: i64,
    pub m20: i64, pub m21: i64, pub m22: i64, pub m23: i64,
    pub m30: i64, pub m31: i64, pub m32: i64, pub m33: i64,
}

/// One entry of a matrix product.
pub open spec fn spec_dot4(a0: int, a1: int, a2: int, a3: int, b0: int, b1: int, b2: int, b3: int) -> int {
    spec_tdiv(a0 * b0 + a1 * b1 + a2 * b2 + a3 * b3, SCALE as int)
}

fn dot4(a0: i64, a1: i64, a2: i64, a3: i64, b0: i64, b1: i64, b2: i64, b3: i64) -> (r: i64)
    requires
        -MAT_LIMIT <= a0 <= MAT_LIMIT,
        -MAT_LIMIT <= a1 <= MAT_LIMIT,
        -MAT_LIMIT <= a2 <= MAT_LIMIT,
        -MAT_LIMIT <= a3 <= MAT_LIMIT,
        -MAT_LIMIT <= b0 <= MAT_LIMIT,
        -MAT_LIMIT <= b1 <= MAT_LIMIT,
        -MAT_LIMIT <= b2 <= MAT_LIMIT,
        -MAT_LIMIT <= b3 <= MAT_LIMIT,
    ensures
        r == spec_dot4(a0 as int, a1 as int, a2 as int, a3 as int, b0 as int, b1 as int, b2 as int, b3 as int),
{
    proof {
        lemma_abs_mul_bound(a0 as int, b0 as int, MAT_LIMIT as int, MAT_LIMIT as int);
        lemma_abs_mul_bound(a1 as int, b1 as int, MAT_LIMIT as int, MAT_LIMIT as int);
        lemma_abs_mul_bound(a2 as int, b2 as int, MAT_LIMIT as int, MAT_LIMIT as int);
        lemma_abs_mul_bound(a3 as int, b3 as int, MAT_LIMIT as int, MAT_LIMIT as int);
    }
    tdiv(a0 * b0 + a1 * b1 + a2 * b2 + a3 * b3, SCALE)
}

impl Mat4Fp {
    /// All entries within `[-b, b]`.
    pub open spec fn bounded(self, b: int) -> bool {
        &&& -b <= self.m00 <= b && -b <= self.m01 <= b && -b <= self.m02 <= b && -b <= self.m03 <= b
        &&& -b <= self.m10 <= b && -b <= self.m11 <= b && -b <= self.m12 <= b && -b <= self.m13 <= b
        &&& -b <= self.m20 <= b && -b <= self.m21 <= b && -b <= self.m22 <= b && -b <= self.m23 <= b
        &&& -b <= self.m30 <= b && -b <= self.m31 <= b && -b <= self.m32 <= b && -b <= self.m33 <= b
    }

    /// The identity transform.
    pub open spec fn spec_identity() -> Mat4Fp {
        Mat4Fp {
            m00: SCALE, m01: 0, m02: 0, m03: 0,
            m10: 0, m11: SCALE, m12: 0, m13: 0,
            m20: 0, m21: 0, m22: SCALE, m23: 0,
            m30: 0, m31: 0, m32: 0, m33: SCALE,
        }
    }

    pub fn identity() -> (r: Mat4Fp)
        ensures
            r == Mat4Fp::spec_identity(),
    {
        Mat4Fp {
            m00: SCALE, m01: 0, m02: 0, m03: 0,
            m10: 0, m11: SCALE, m12: 0, m13: 0,
            m20: 0, m21: 0, m22: SCALE, m23: 0,
            m30: 0, m31: 0, m32: 0, m33: SCALE,
        }
    }

    /// The matrix product `self * o`.
    pub open spec fn spec_mul(self, o: Mat4Fp) -> Mat4Fp {
        Mat4Fp {
            m00: spec_dot4(self.m00 as int, self.m01 as int, self.m02 as int, self.m03 as int, o.m00 as int, o.m10 as int, o.m20 as int, o.m30 as int) as i64,
            m01: spec_dot4(self.m00 as int, self.m01 as int, self.m02 as int, self.m03 as int, o.m01 as int, o.m11 as int, o.m21 as int, o.m31 as int) as i64,
            m02: spec_dot4(self.m00 as int, self.m01 as int, self.m02 as int, self.m03 as int, o.m02 as int, o.m12 as int, o.m22 as int, o.m32 as int) as i64,
            m03: spec_dot4(self.m00 as int, self.m01 as int, self.m02 as int, self.m03 as int, o.m03 as int, o.m13 as int, o.m23 as int, o.m33 as int) as i64,
            m10: spec_dot4(self.m10 as int, self.m11 as int, self.m12 as int, self.m13 as int, o.m00 as int, o.m10 as int, o.m20 as int, o.m30 as int) as i64,
            m11: spec_dot4(self.m10 as int, self.m11 as int, self.m12 as int, self.m13 as int, o.m01 as int, o.m11 as int, o.m21 as int, o.m31 as int) as i64,
            m12: spec_dot4(self.m10 as int, self.m11 as int, self.m12 as int, self.m13 as int, o.m02 as int, o.m12 as int, o.m22 as int, o.m32 as int) as i64,
            m13: spec_dot4(self.m10 as int, self.m11 as int, self.m12 as int, self.m13 as int, o.m03 as int, o.m13 as int, o.m23 as int, o.m33 as int) as i64,
            m20: spec_dot4(self.m20 as int, self.m21 as int, self.m22 as int, self.m23 as int, o.m00 as int, o.m10 as int, o.m20 as int, o.m30 as int) as i64,
            m21: spec_dot4(self.m20 as int, self.m21 as int, self.m22 as int, self.m23 as int, o.m01 as int, o.m11 as int, o.m21 as int, o.m31 as int) as i64,
            m22: spec_dot4(self.m20 as int, self.m21 as int, self.m22 as int, self.m23 as int, o.m02 as int, o.m12 as int, o.m22 as int, o.m32 as int) as i64,
            m23: spec_dot4(self.m20 as int, self.m21 as int, self.m22 as int, self.m23 as int, o.m03 as int, o.m13 as int, o.m23 as int, o.m33 as int) as i64,
            m30: spec_dot4(self.m30 as int, self.m31 as int, self.m32 as int, self.m33 as int, o.m00 as int, o.m10 as int, o.m20 as int, o.m30 as int) as i64,
            m31: spec_dot4(self.m30 as int, self.m31 as int, self.m32 as int, self.m33 as int, o.m01 as int, o.m11 as int, o.m21 as int, o.m31 as int) as i64,
            m32: spec_dot4(self.m30 as int, self.m31 as int, self.m32 as int, self.m33 as int, o.m02 as int, o.m12 as int, o.m22 as int, o.m32 as int) as i64,
            m33: spec_dot4(self.m30 as int, self.m31 as int, self.m32 as int, self.m33 as int, o.m03 as int, o.m13 as int, o.m23 as int, o.m33 as int) as i64,
        }
    }

    /// Multiplies two matrices.
    pub fn mul(&self, o: &Mat4Fp) -> (r: Mat4Fp)
        requires
            self.bounded(MAT_LIMIT as int),
            o.bounded(MAT_LIMIT as int),
        ensures
            r == self.spec_mul(*o),
    {
        Mat4Fp {
            m00: dot4(self.m00, self.m01, self.m02, self.m03, o.m00, o.m10, o.m20, o.m30),
            m01: dot4(self.m00, self.m01, self.m02, self.m03, o.m01, o.m11, o.m21, o.m31),
            m02: dot4(self.m00, self.m01, self.m02, self.m03, o.m02, o.m12, o.m22, o.m32),
            m03: dot4(self.m00, self.m01, self.m02, self.m03, o.m03, o.m13, o.m23, o.m33),
            m10: dot4(self.m10, self.m11, self.m12, self.m13, o.m00, o.m10, o.m20, o.m30),
            m11: dot4(self.m10, self.m11, self.m12, self.m13, o.m01, o.m11, o.m21, o.m31),
            m12: dot4(self.m10, self.m11, self.m12, self.m13, o.m02, o.m12, o.m22, o.m32),
            m13: dot4(self.m10, self.m11, self.m12, self.m13, o.m03, o.m13, o.m23, o.m33),
            m20: dot4(self.m20, self.m21, self.m22, self.m23, o.m00, o.m10, o.m20, o.m30),
            m21: dot4(self.m20, self.m21, self.m22, self.m23, o.m01, o.m11, o.m21, o.m31),
            m22: dot4(self.m20, self.m21, self.m22, self.m23, o.m02, o.m12, o.m22, o.m32),
            m23: dot4(self.m20, self.m21, self.m22, self.m23, o.m03, o.m13, o.m23, o.m33),
            m30: dot4(self.m30, self.m31, self.m32, self.m33, o.m00, o.m10, o.m20, o.m30),
            m31: dot4(self.m30, self.m31, self.m32, self.m33, o.m01, o.m11, o.m21, o.m31),
            m32: dot4(self.m30, self.m31, self.m32, self.m33, o.m02, o.m12, o.m22, o.m32),
            m33: dot4(self.m30, self.m31, self.m32, self.m33, o.m03, o.m13, o.m23, o.m33),
        }
    }
}

} // verus!

verus! {

impl Camera {
    /// The view matrix: rows are the right, up and negated forward basis
    /// vectors with the translations that bring the camera to the origin.
    pub open spec fn spec_view_matrix(self) -> Mat4Fp {
        let f = self.spec_forward();
        let r = self.spec_right();
        let u = self.spec_up();
        Mat4Fp {
            m00: r.x, m01: r.y, m02: r.z,
            m03: (-spec_tdiv(r.x * self.pos.x + r.y * self.pos.y + r.z * self.pos.z, SCALE as int)) as i64,
            m10: u.x, m11: u.y, m12: u.z,
            m13: (-spec_tdiv(u.x * self.pos.x + u.y * self.pos.y + u.z * self.pos.z, SCALE as int)) as i64,
            m20: (-f.x) as i64, m21: (-f.y) as i64, m22: (-f.z) as i64,
            m23: spec_tdiv(f.x * self.pos.x + f.y * self.pos.y + f.z * self.pos.z, SCALE as int) as i64,
            m30: 0, m31: 0, m32: 0, m33: SCALE,
        }
    }

    /// Computes the view matrix from the current state.
    pub fn get_view_matrix(&self) -> (m: Mat4Fp)
        requires
            self.wf(),
        ensures
            m == self.spec_view_matrix(),
            m.bounded(700_000_000),
    {
        proof {
            lemma_sin_bounds(self.yaw as int);
            lemma_cos_bounds(self.yaw as int);
            lemma_sin_bounds(self.pitch as int);
            lemma_cos_bounds(self.pitch as int);
        }
        let cp = cos_fp(self.pitch);
        let sp = sin_fp(self.pitch);
        let cy = cos_fp(self.yaw);
        let sy = sin_fp(self.yaw);
        proof {
            lemma_abs_mul_bound(cp as int, cy as int, SCALE as int, SCALE as int);
            lemma_abs_mul_bound(cp as int, sy as int, SCALE as int, SCALE as int);
            lemma_tdiv_bound(cp as int * cy as int, SCALE as int, SCALE as int);
            lemma_tdiv_bound(cp as int * sy as int, SCALE as int, SCALE as int);
        }
        let f = Vec3Fp { x: tdiv(cp * cy, SCALE), y: sp, z: tdiv(cp * sy, SCALE) };
        let r = Vec3Fp { x: -sy, y: 0, z: cy };
        proof {
            lemma_abs_mul_bound(r.y as int, f.z as int, SCALE as int, SCALE as int);
            lemma_abs_mul_bound(r.z as int, f.y as int, SCALE as int, SCALE as int);
            lemma_abs_mul_bound(r.z as int, f.x as int, SCALE as int, SCALE as int);
            lemma_abs_mul_bound(r.x as int, f.z as int, SCALE as int, SCALE as int);
            lemma_abs_mul_bound(r.x as int, f.y as int, SCALE as int, SCALE as int);
            lemma_abs_mul_bound(r.y as int, f.x as int, SCALE as int, SCALE as int);
            lemma_tdiv_bound(r.y as int * f.z as int - r.z as int * f.y as int, SCALE as int, 2 * SCALE as int);
            lemma_tdiv_bound(r.z as int * f.x as int - r.x as int * f.z as int, SCALE as int, 2 * SCALE as int);
            lemma_tdiv_bound(r.x as int * f.y as int - r.y as int * f.x as int, SCALE as int, 2 * SCALE as int);
        }
        let u = Vec3Fp {
            x: tdiv(r.y * f.z - r.z * f.y, SCALE),
            y: tdiv(r.z * f.x - r.x * f.z, SCALE),
            z: tdiv(r.x * f.y - r.y * f.x, SCALE),
        };
        let tr = self.trans_row(r);
        let tu = self.trans_row(u);
        let tf = self.trans_row(f);
        Mat4Fp {
            m00: r.x, m01: r.y, m02: r.z, m03: -tr,
            m10: u.x, m11: u.y, m12: u.z, m13: -tu,
            m20: -f.x, m21: -f.y, m22: -f.z, m23: tf,
            m30: 0, m31: 0, m32: 0, m33: SCALE,
        }
    }

    /// The translation entry for one basis row.
    fn trans_row(&self, v: Vec3Fp) -> (r: i64)
        requires
            self.wf(),
            v.bounded(2 * SCALE as int),
        ensures
            r == spec_tdiv(
                v.x * self.pos.x + v.y * self.pos.y + v.z * self.pos.z,
                SCALE as int,
            ),
            -600_000_000 <= r <= 600_000_000,
    {
        proof {
            lemma_abs_mul_bound(v.x as int, self.pos.x as int, 2 * SCALE as int, POS_LIMIT as int);
            lemma_abs_mul_bound(v.y as int, self.pos.y as int, 2 * SCALE as int, POS_LIMIT as int);
            lemma_abs_mul_bound(v.z as int, self.pos.z as int, 2 * SCALE as int, POS_LIMIT as int);
            lemma_tdiv_bound(
                v.x as int * self.pos.x as int + v.y as int * self.pos.y as int + v.z as int
                    * self.pos.z as int,
                SCALE as int,
                600_000_000,
            );
        }
        tdiv(v.x * self.pos.x + v.y * self.pos.y + v.z * self.pos.z, SCALE)
    }

    /// The perspective projection matrix for the fixed vertical field of
    /// view, the current aspect ratio, and the configured near and far
    /// planes (OpenGL clip-space convention).
    pub open spec fn spec_projection_matrix(self) -> Mat4Fp {
        let aspect = spec_tdiv(self.viewport_w as int * SCALE, self.viewport_h as int);
        let denom = spec_tdiv(aspect * TAN_HALF_FOV, SCALE as int);
        Mat4Fp {
            m00: spec_tdiv(SCALE as int * SCALE, denom) as i64, m01: 0, m02: 0, m03: 0,
            m10: 0, m11: spec_tdiv(SCALE as int * SCALE, TAN_HALF_FOV as int) as i64, m12: 0, m13: 0,
            m20: 0, m21: 0,
            m22: (-spec_tdiv((FAR_PLANE + NEAR_PLANE) as int * SCALE, (FAR_PLANE - NEAR_PLANE) as int)) as i64,
            m23: (-spec_tdiv(2 * FAR_PLANE * NEAR_PLANE, (FAR_PLANE - NEAR_PLANE) as int)) as i64,
            m30: 0, m31: 0, m32: (-SCALE) as i64, m33: 0,
        }
    }

    /// Computes the projection matrix from the current viewport.
    pub fn get_projection_matrix(&self) -> (m: Mat4Fp)
        requires
            self.wf(),
        ensures
            m == self.spec_projection_matrix(),
            m.bounded(20_000),
    {
        proof {
            lemma_abs_mul_bound(self.viewport_w as int, SCALE as int, VIEW_MAX as int, SCALE as int);
            assert(self.viewport_w as int * SCALE as int <= (8 * SCALE) * (self.viewport_h as int))
                by (nonlinear_arith)
                requires
                    self.viewport_w as int <= 8 * (self.viewport_h as int),
                    self.viewport_h as int > 0,
            {}
            lemma_tdiv_bound(self.viewport_w as int * SCALE as int, self.viewport_h as int, 8 * SCALE as int);
            assert((self.viewport_h as int) * 125 <= self.viewport_w as int * SCALE as int)
                by (nonlinear_arith)
                requires
                    self.viewport_h as int <= 8 * (self.viewport_w as int),
                    self.viewport_w as int > 0,
            {}
            lemma_div_is_ordered(
                (self.viewport_h as int) * 125,
                self.viewport_w as int * SCALE as int,
                self.viewport_h as int,
            );
            lemma_div_multiples_vanish(125, self.viewport_h as int);
        }
        let aspect = tdiv(self.viewport_w * SCALE, self.viewport_h);
        proof {
            lemma_abs_mul_bound(aspect as int, TAN_HALF_FOV as int, 8 * SCALE as int, TAN_HALF_FOV as int);
            lemma_tdiv_bound(aspect as int * TAN_HALF_FOV as int, SCALE as int, 3_312);
            assert(51 * SCALE as int <= aspect as int * TAN_HALF_FOV as int) by (nonlinear_arith)
                requires
                    aspect as int >= 125,
            {}
            lemma_div_is_ordered(51 * SCALE as int, aspect as int * TAN_HALF_FOV as int, SCALE as int);
            lemma_div_multiples_vanish(51, SCALE as int);
            assert((SCALE as int) * 51 == 51 * SCALE as int) by (nonlinear_arith) {}
        }
        let denom = tdiv(aspect * TAN_HALF_FOV, SCALE);
        proof {
            assert(SCALE as int * SCALE as int <= 20_000 * denom as int) by (nonlinear_arith)
                requires
                    denom as int >= 51,
            {}
            lemma_tdiv_bound(SCALE as int * SCALE as int, denom as int, 20_000);
            lemma_div_pos_is_pos(SCALE as int * SCALE as int, denom as int);
        }
        let m00 = tdiv(SCALE * SCALE, denom);
        let m11 = tdiv(SCALE * SCALE, TAN_HALF_FOV);
        let m22 = -tdiv((FAR_PLANE + NEAR_PLANE) * SCALE, FAR_PLANE - NEAR_PLANE);
        let m23 = -tdiv(2 * FAR_PLANE * NEAR_PLANE, FAR_PLANE - NEAR_PLANE);
        Mat4Fp {
            m00, m01: 0, m02: 0, m03: 0,
            m10: 0, m11, m12: 0, m13: 0,
            m20: 0, m21: 0, m22, m23,
            m30: 0, m31: 0, m32: -SCALE, m33: 0,
        }
    }
}

/// The fixed light-space camera the auxiliary sun transform is built from:
/// above and behind the origin, looking down at it.
pub open spec fn spec_sun_camera() -> Camera {
    Camera {
        pos: Vec3Fp { x: 0, y: 200_000, z: 500_000 },
        yaw: 3_000_000,
        pitch: (-242_000) as i64,
        viewport_w: 1_000,
        viewport_h: 1_000,
        speed_boost: false,
    }
}

/// The sun's orthographic projection: a 1200-unit box, 600 units to each
/// side, near plane 1 and far plane 1200, in fixed point.
pub open spec fn spec_sun_ortho() -> Mat4Fp {
    Mat4Fp {
        m00: 1_666, m01: 0, m02: 0, m03: 0,
        m10: 0, m11: 1_666, m12: 0, m13: 0,
        m20: 0, m21: 0, m22: (-1_668) as i64, m23: (-1_001) as i64,
        m30: 0, m31: 0, m32: 0, m33: SCALE,
    }
}

/// The per-frame transform block uploaded to the rendering collaborator:
/// 4x4-matrix rows with no padding gaps, re-sent only when the camera
/// moved.
#[derive(Clone, Copy, Debug, PartialEq, Eq, Structural)]
pub struct TransformsUBO {
    pub mvp: Mat4Fp,
    pub proj: Mat4Fp,
    pub view: Mat4Fp,
    pub model: Mat4Fp,
    pub sun_vp: Mat4Fp,
}

/// Builds the transform block for the camera's current state: the model
/// transform is the identity, the combined transform is projection times
/// view, and the light-space transform is the sun's orthographic
/// projection times its view.
pub fn build_transforms(cam: &Camera) -> (r: TransformsUBO)
    requires
        cam.wf(),
    ensures
        r.view == cam.spec_view_matrix(),
        r.proj == cam.spec_projection_matrix(),
        r.model == Mat4Fp::spec_identity(),
        r.mvp == cam.spec_projection_matrix().spec_mul(cam.spec_view_matrix()),
        r.sun_vp == spec_sun_ortho().spec_mul(spec_sun_camera().spec_view_matrix()),
{
    let view = cam.get_view_matrix();
    let proj = cam.get_projection_matrix();
    let model = Mat4Fp::identity();
    let mvp = proj.mul(&view);
    let sun_cam = Camera::new(
        Vec3Fp { x: 0, y: 200_000, z: 500_000 },
        3_000_000,
        -242_000,
        1_000,
        1_000,
    );
    proof {
        vstd::arithmetic::div_mod::lemma_mod_bound(3_000_000, crate::fixed::FULL_TURN as int);
        vstd::arithmetic::div_mod::lemma_small_mod(3_000_000nat, crate::fixed::FULL_TURN as nat);
        assert(sun_cam == spec_sun_camera());
    }
    let sun_view = sun_cam.get_view_matrix();
    let sun_proj = Mat4Fp {
        m00: 1_666, m01: 0, m02: 0, m03: 0,
        m10: 0, m11: 1_666, m12: 0, m13: 0,
        m20: 0, m21: 0, m22: -1_668, m23: -1_001,
        m30: 0, m31: 0, m32: 0, m33: SCALE,
    };
    let sun_vp = sun_proj.mul(&sun_view);
    TransformsUBO { mvp, proj, view, model, sun_vp }
}

} // verus!
