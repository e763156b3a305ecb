//! The first-person camera: yaw/pitch orientation, movement along the
//! yaw-derived axes, and the ray-through-pixel query that couples the
//! viewport to the terrain.

use vstd::prelude::*;
use crate::fixed::{
    SCALE, QUARTER_TURN, FULL_TURN, ANGLE_DOMAIN, clamp_i64, cos_fp, sin_fp, spec_clamp, spec_cos,
    spec_sin, spec_tdiv, spec_wrap_angle, tdiv, wrap_angle, lemma_sin_bounds, lemma_cos_bounds,
    lemma_tdiv_bound,
};
use crate::ray::Ray;
use crate::vec3::{Vec2Fp, Vec3Fp, lemma_abs_mul_bound};

verus! {

/// Bound on camera position components.
pub const POS_LIMIT: i64 = 100_000_000;

/// The pitch clamp keeps this margin from a straight-up or straight-down
/// quarter turn, so the up direction can never invert.
pub const PITCH_MARGIN: i64 = 1_000;

/// Angle sub-units of look rotation per fixed-point pixel of pointer delta.
pub const SENSITIVITY: i64 = 2_000;

/// Movement speed, fixed-point world units per second.
pub const SPEED: i64 = 50_000;

/// Cap on one movement call's elapsed time, fixed-point seconds.
pub const MOVE_DT_LIMIT: i64 = 10_000;

/// Cap on one rotation call's pointer delta, fixed-point pixels.
pub const ROTATE_DELTA_LIMIT: i64 = 16_000_000;

/// Viewport side bounds, fixed-point logical pixels.
pub const VIEW_MIN: i64 = 1_000;

pub const VIEW_MAX: i64 = 16_000_000;

/// Tangent of half the fixed vertical field of view (45 degrees total),
/// scaled by `SCALE`.
pub const TAN_HALF_FOV: i64 = 414;

/// Near and far plane distances, fixed-point world units.
pub const NEAR_PLANE: i64 = 100;

pub const FAR_PLANE: i64 = 2_000_000;

/// A movement direction in the camera's local frame.
#[derive(Clone, Copy, Debug, PartialEq, Eq, Structural)]
pub enum Movement {
    Forward,
    Backward,
    Left,
    Right,
}

/// The camera: a position, a yaw/pitch orientation, the viewport it
/// projects into, and a speed-boost flag.
#[derive(Clone, Copy, Debug, PartialEq, Eq, Structural)]
pub struct Camera {
    pub pos: Vec3Fp,
    /// Yaw, wrapped into `[0, FULL_TURN)`; 0 looks along `+x`, a quarter
    /// turn along `+z`.
    pub yaw: i64,
    /// Pitch, clamped strictly inside the open interval
    /// `(-QUARTER_TURN, QUARTER_TURN)`.
    pub pitch: i64,
    /// Viewport size in fixed-point logical pixels.
    pub viewport_w: i64,
    pub viewport_h: i64,
    /// Doubles movement speed while held.
    pub speed_boost: bool,
}

impl Camera {
    /// Camera invariant: orientation in range, position in the world
    /// bound, viewport sides in range with aspect ratio within 8.
    pub open spec fn wf(self) -> bool {
        &&& 0 <= self.yaw < FULL_TURN
        &&& -QUARTER_TURN + PITCH_MARGIN <= self.pitch <= QUARTER_TURN - PITCH_MARGIN
        &&& self.pos.bounded(POS_LIMIT as int)
        &&& VIEW_MIN <= self.viewport_w <= VIEW_MAX
        &&& VIEW_MIN <= self.viewport_h <= VIEW_MAX
        &&& self.viewport_w <= 8 * self.viewport_h
        &&& self.viewport_h <= 8 * self.viewport_w
    }

    /// A camera at `pos` with the given orientation and viewport.
    pub fn new(pos: Vec3Fp, yaw: i64, pitch: i64, viewport_w: i64, viewport_h: i64) -> (r: Camera)
        requires
            pos.bounded(POS_LIMIT as int),
            -ANGLE_DOMAIN <= yaw <= ANGLE_DOMAIN,
            -ANGLE_DOMAIN <= pitch <= ANGLE_DOMAIN,
            VIEW_MIN <= viewport_w <= VIEW_MAX,
            VIEW_MIN <= viewport_h <= VIEW_MAX,
            viewport_w <= 8 * viewport_h,
            viewport_h <= 8 * viewport_w,
        ensures
            r.pos == pos,
            r.yaw == spec_wrap_angle(yaw as int),
            r.pitch == spec_clamp(
                pitch as int,
                -QUARTER_TURN + PITCH_MARGIN,
                QUARTER_TURN - PITCH_MARGIN,
            ),
            r.viewport_w == viewport_w,
            r.viewport_h == viewport_h,
            !r.speed_boost,
            r.wf(),
    {
        Camera {
            pos,
            yaw: wrap_angle(yaw),
            pitch: clamp_i64(pitch, -QUARTER_TURN + PITCH_MARGIN, QUARTER_TURN - PITCH_MARGIN),
            viewport_w,
            viewport_h,
            speed_boost: false,
        }
    }

    /// Updates the viewport on resize.
    pub fn set_viewport(&mut self, w: i64, h: i64)
        requires
            old(self).wf(),
            VIEW_MIN <= w <= VIEW_MAX,
            VIEW_MIN <= h <= VIEW_MAX,
            w <= 8 * h,
            h <= 8 * w,
        ensures
            *final(self) == (Camera { viewport_w: w, viewport_h: h, ..*old(self) }),
            final(self).wf(),
    {
        self.viewport_w = w;
        self.viewport_h = h;
    }

    /// Orientation after one pointer delta: yaw accumulates and wraps,
    /// pitch accumulates downward and is clamped strictly inside the open
    /// interval around level.
    pub open spec fn spec_rotate(self, dx: int, dy: int) -> Camera {
        Camera {
            yaw: spec_wrap_angle(self.yaw + spec_tdiv(dx * SENSITIVITY, SCALE as int)) as i64,
            pitch: spec_clamp(
                self.pitch - spec_tdiv(dy * SENSITIVITY, SCALE as int),
                -QUARTER_TURN + PITCH_MARGIN,
                QUARTER_TURN - PITCH_MARGIN,
            ) as i64,
            ..self
        }
    }

    /// Rotates the look direction by a pointer delta.
    pub fn rotate(&mut self, dx: i64, dy: i64)
        requires
            old(self).wf(),
            -ROTATE_DELTA_LIMIT <= dx <= ROTATE_DELTA_LIMIT,
            -ROTATE_DELTA_LIMIT <= dy <= ROTATE_DELTA_LIMIT,
        ensures
            *final(self) == old(self).spec_rotate(dx as int, dy as int),
            final(self).wf(),
            -QUARTER_TURN < final(self).pitch < QUARTER_TURN,
    {
        proof {
            lemma_abs_mul_bound(dx as int, SENSITIVITY as int, ROTATE_DELTA_LIMIT as int, SENSITIVITY as int);
            lemma_abs_mul_bound(dy as int, SENSITIVITY as int, ROTATE_DELTA_LIMIT as int, SENSITIVITY as int);
            lemma_tdiv_bound(dx as int * SENSITIVITY as int, SCALE as int, 32_000_000_000);
            lemma_tdiv_bound(dy as int * SENSITIVITY as int, SCALE as int, 32_000_000_000);
        }
        self.yaw = wrap_angle(self.yaw + tdiv(dx * SENSITIVITY, SCALE));
        self.pitch = clamp_i64(
            self.pitch - tdiv(dy * SENSITIVITY, SCALE),
            -QUARTER_TURN + PITCH_MARGIN,
            QUARTER_TURN - PITCH_MARGIN,
        );
    }

    /// The camera after a whole sequence of rotation deltas.
    pub open spec fn spec_rotate_all(self, ds: Seq<(int, int)>) -> Camera
        decreases ds.len(),
    {
        if ds.len() == 0 {
            self
        } else {
            self.spec_rotate(ds[0].0, ds[0].1).spec_rotate_all(ds.drop_first())
        }
    }

    /// Position after one movement tick along the yaw-derived axes: the
    /// look pitch adds no vertical translation, and the position stays in
    /// the world bound.
    pub open spec fn spec_go(self, m: Movement, dt: int) -> Camera {
        let mult: int = if self.speed_boost { 2 } else { 1 };
        let dist = spec_tdiv(SPEED * dt * mult, SCALE as int);
        let fx = spec_cos(self.yaw as int);
        let fz = spec_sin(self.yaw as int);
        let step_x = match m {
            Movement::Forward => spec_tdiv(fx * dist, SCALE as int),
            Movement::Backward => -spec_tdiv(fx * dist, SCALE as int),
            Movement::Left => spec_tdiv(fz * dist, SCALE as int),
            Movement::Right => -spec_tdiv(fz * dist, SCALE as int),
        };
        let step_z = match m {
            Movement::Forward => spec_tdiv(fz * dist, SCALE as int),
            Movement::Backward => -spec_tdiv(fz * dist, SCALE as int),
            Movement::Left => -spec_tdiv(fx * dist, SCALE as int),
            Movement::Right => spec_tdiv(fx * dist, SCALE as int),
        };
        Camera {
            pos: Vec3Fp {
                x: spec_clamp(self.pos.x + step_x, -POS_LIMIT as int, POS_LIMIT as int) as i64,
                y: self.pos.y,
                z: spec_clamp(self.pos.z + step_z, -POS_LIMIT as int, POS_LIMIT as int) as i64,
            },
            ..self
        }
    }

    /// Moves the camera for one frame in a local direction.
    pub fn go(&mut self, m: Movement, dt: i64)
        requires
            old(self).wf(),
            0 <= dt <= MOVE_DT_LIMIT,
        ensures
            *final(self) == old(self).spec_go(m, dt as int),
            final(self).wf(),
    {
        let mult: i64 = if self.speed_boost { 2 } else { 1 };
        proof {
            lemma_abs_mul_bound(SPEED as int, dt as int, SPEED as int, MOVE_DT_LIMIT as int);
            lemma_abs_mul_bound(
                SPEED as int * dt as int,
                mult as int,
                500_000_000_000,
                2,
            );
            lemma_tdiv_bound(SPEED as int * dt as int * mult as int, SCALE as int, 1_000_000_000);
            lemma_sin_bounds(self.yaw as int);
            lemma_cos_bounds(self.yaw as int);
        }
        let dist = tdiv(SPEED * dt * mult, SCALE);
        proof {
            assert(0 <= dist <= 1_000_000) by {
                assert(SPEED as int * dt as int * mult as int <= 1_000_000 * SCALE)
                    by (nonlinear_arith)
                    requires
                        0 <= dt <= MOVE_DT_LIMIT,
                        1 <= mult <= 2,
                {}
                lemma_tdiv_bound(SPEED as int * dt as int * mult as int, SCALE as int, 1_000_000);
                vstd::arithmetic::div_mod::lemma_div_pos_is_pos(
                    SPEED as int * dt as int * mult as int,
                    SCALE as int,
                );
            }
        }
        let fx = cos_fp(self.yaw);
        let fz = sin_fp(self.yaw);
        proof {
            lemma_abs_mul_bound(fx as int, dist as int, SCALE as int, 1_000_000);
            lemma_abs_mul_bound(fz as int, dist as int, SCALE as int, 1_000_000);
            lemma_tdiv_bound(fx as int * dist as int, SCALE as int, 1_000_000);
            lemma_tdiv_bound(fz as int * dist as int, SCALE as int, 1_000_000);
        }
        let along_x = tdiv(fx * dist, SCALE);
        let along_z = tdiv(fz * dist, SCALE);
        let (step_x, step_z): (i64, i64) = match m {
            Movement::Forward => (along_x, along_z),
            Movement::Backward => (-along_x, -along_z),
            Movement::Left => (along_z, -along_x),
            Movement::Right => (-along_z, along_x),
        };
        self.pos = Vec3Fp {
            x: clamp_i64(self.pos.x + step_x, -POS_LIMIT, POS_LIMIT),
            y: self.pos.y,
            z: clamp_i64(self.pos.z + step_z, -POS_LIMIT, POS_LIMIT),
        };
    }

    /// The camera's forward vector, scaled by about `SCALE`.
    pub open spec fn spec_forward(self) -> Vec3Fp {
        Vec3Fp {
            x: spec_tdiv(spec_cos(self.pitch as int) * spec_cos(self.yaw as int), SCALE as int) as i64,
            y: spec_sin(self.pitch as int) as i64,
            z: spec_tdiv(spec_cos(self.pitch as int) * spec_sin(self.yaw as int), SCALE as int) as i64,
        }
    }

    /// The camera's right vector (independent of pitch).
    pub open spec fn spec_right(self) -> Vec3Fp {
        Vec3Fp {
            x: (-spec_sin(self.yaw as int)) as i64,
            y: 0,
            z: spec_cos(self.yaw as int) as i64,
        }
    }

    /// The camera's up vector: `right x forward`, rescaled by `SCALE`.
    pub open spec fn spec_up(self) -> Vec3Fp {
        let r = self.spec_right();
        let f = self.spec_forward();
        Vec3Fp {
            x: spec_tdiv(r.y * f.z - r.z * f.y, SCALE as int) as i64,
            y: spec_tdiv(r.z * f.x - r.x * f.z, SCALE as int) as i64,
            z: spec_tdiv(r.x * f.y - r.y * f.x, SCALE as int) as i64,
        }
    }

    /// The exact center of the viewport, in fixed-point logical pixels.
    pub open spec fn spec_center_pixel(self) -> Vec2Fp {
        Vec2Fp { x: (self.viewport_w / 2) as i64, y: (self.viewport_h / 2) as i64 }
    }

    /// Unnormalized ray direction through a pixel: the forward vector plus
    /// the right and up vectors scaled by the pixel's offset from the
    /// viewport center (pixel-center convention: the center pixel has
    /// offset exactly zero).
    pub open spec fn spec_dir_raw(self, px: Vec2Fp) -> Vec3Fp {
        let half_w = self.viewport_w as int / 2;
        let half_h = self.viewport_h as int / 2;
        let ndc_x = spec_tdiv((px.x - half_w) * SCALE, half_w);
        let ndc_y = spec_tdiv((half_h - px.y) * SCALE, half_h);
        let aspect = spec_tdiv(self.viewport_w as int * SCALE, self.viewport_h as int);
        let sx = spec_tdiv(spec_tdiv(ndc_x * TAN_HALF_FOV, SCALE as int) * aspect, SCALE as int);
        let sy = spec_tdiv(ndc_y * TAN_HALF_FOV, SCALE as int);
        let f = self.spec_forward();
        let r = self.spec_right();
        let u = self.spec_up();
        Vec3Fp {
            x: (f.x + spec_tdiv(r.x * sx, SCALE as int) + spec_tdiv(u.x * sy, SCALE as int)) as i64,
            y: (f.y + spec_tdiv(r.y * sx, SCALE as int) + spec_tdiv(u.y * sy, SCALE as int)) as i64,
            z: (f.z + spec_tdiv(r.z * sx, SCALE as int) + spec_tdiv(u.z * sy, SCALE as int)) as i64,
        }
    }

    /// The ray cast through a pixel: camera position, direction normalized.
    pub open spec fn spec_ray_through_pixel(self, px: Vec2Fp) -> Ray {
        Ray { origin: self.pos, dir: self.spec_dir_raw(px).spec_norm_or_zero() }
    }
}

} // verus!

verus! {

impl Camera {
    /// Casts the ray from the camera position through a viewport pixel.
    /// The direction is the normalized sum of the forward vector and the
    /// pixel's centered offset along the right and up vectors.
    pub fn get_ray_through_pixel(&self, px: Vec2Fp) -> (r: Ray)
        requires
            self.wf(),
            0 <= px.x <= self.viewport_w,
            0 <= px.y <= self.viewport_h,
        ensures
            r == self.spec_ray_through_pixel(px),
            r.wf(),
    {
        let half_w = self.viewport_w / 2;
        let half_h = self.viewport_h / 2;
        proof {
            lemma_abs_mul_bound(
                (px.x - half_w) as int,
                SCALE as int,
                (half_w + 1) as int,
                SCALE as int,
            );
            assert((half_w + 1) * SCALE <= (SCALE + 2) * half_w) by (nonlinear_arith)
                requires
                    half_w as int >= 500,
            {}
            assert((half_w + 1) as int * (SCALE as int) == (half_w + 1) * SCALE);
            lemma_tdiv_bound((px.x - half_w) as int * SCALE as int, half_w as int, SCALE as int + 2);
            lemma_abs_mul_bound(
                (half_h - px.y) as int,
                SCALE as int,
                (half_h + 1) as int,
                SCALE as int,
            );
            assert((half_h + 1) * SCALE <= (SCALE + 2) * half_h) by (nonlinear_arith)
                requires
                    half_h as int >= 500,
            {}
            lemma_tdiv_bound((half_h - px.y) as int * SCALE as int, half_h as int, SCALE as int + 2);
        }
        let ndc_x = tdiv((px.x - half_w) * SCALE, half_w);
        let ndc_y = tdiv((half_h - px.y) * SCALE, half_h);
        proof {
            lemma_abs_mul_bound(self.viewport_w as int, SCALE as int, VIEW_MAX as int, SCALE as int);
            assert(self.viewport_w as int * SCALE as int <= (8 * SCALE) * (self.viewport_h as int))
                by (nonlinear_arith)
                requires
                    self.viewport_w as int <= 8 * (self.viewport_h as int),
                    self.viewport_h as int > 0,
            {}
            lemma_tdiv_bound(
                self.viewport_w as int * SCALE as int,
                self.viewport_h as int,
                8 * SCALE as int,
            );
            vstd::arithmetic::div_mod::lemma_div_pos_is_pos(
                self.viewport_w as int * SCALE as int,
                self.viewport_h as int,
            );
        }
        let aspect = tdiv(self.viewport_w * SCALE, self.viewport_h);
        proof {
            lemma_abs_mul_bound(ndc_x as int, TAN_HALF_FOV as int, SCALE as int + 2, TAN_HALF_FOV as int);
            lemma_tdiv_bound(ndc_x as int * TAN_HALF_FOV as int, SCALE as int, 415);
            lemma_abs_mul_bound(ndc_y as int, TAN_HALF_FOV as int, SCALE as int + 2, TAN_HALF_FOV as int);
            lemma_tdiv_bound(ndc_y as int * TAN_HALF_FOV as int, SCALE as int, 415);
        }
        let tan_x = tdiv(ndc_x * TAN_HALF_FOV, SCALE);
        let sy = tdiv(ndc_y * TAN_HALF_FOV, SCALE);
        proof {
            lemma_abs_mul_bound(tan_x as int, aspect as int, 415, 8 * SCALE as int);
            lemma_tdiv_bound(tan_x as int * aspect as int, SCALE as int, 3320);
        }
        let sx = tdiv(tan_x * aspect, SCALE);
        proof {
            lemma_sin_bounds(self.yaw as int);
            lemma_cos_bounds(self.yaw as int);
            lemma_sin_bounds(self.pitch as int);
            lemma_cos_bounds(self.pitch as int);
        }
        let cp = cos_fp(self.pitch);
        let sp = sin_fp(self.pitch);
        let cy = cos_fp(self.yaw);
        let syaw = sin_fp(self.yaw);
        proof {
            lemma_abs_mul_bound(cp as int, cy as int, SCALE as int, SCALE as int);
            lemma_abs_mul_bound(cp as int, syaw as int, SCALE as int, SCALE as int);
            lemma_tdiv_bound(cp as int * cy as int, SCALE as int, SCALE as int);
            lemma_tdiv_bound(cp as int * syaw as int, SCALE as int, SCALE as int);
        }
        let f = Vec3Fp { x: tdiv(cp * cy, SCALE), y: sp, z: tdiv(cp * syaw, SCALE) };
        let r = Vec3Fp { x: -syaw, y: 0, z: cy };
        proof {
            lemma_abs_mul_bound(r.y as int, f.z as int, SCALE as int, SCALE as int);
            lemma_abs_mul_bound(r.z as int, f.y as int, SCALE as int, SCALE as int);
            lemma_abs_mul_bound(r.z as int, f.x as int, SCALE as int, SCALE as int);
            lemma_abs_mul_bound(r.x as int, f.z as int, SCALE as int, SCALE as int);
            lemma_abs_mul_bound(r.x as int, f.y as int, SCALE as int, SCALE as int);
            lemma_abs_mul_bound(r.y as int, f.x as int, SCALE as int, SCALE as int);
            lemma_tdiv_bound(r.y as int * f.z as int - r.z as int * f.y as int, SCALE as int, 2 * SCALE as int);
            lemma_tdiv_bound(r.z as int * f.x as int - r.x as int * f.z as int, SCALE as int, 2 * SCALE as int);
            lemma_tdiv_bound(r.x as int * f.y as int - r.y as int * f.x as int, SCALE as int, 2 * SCALE as int);
        }
        let u = Vec3Fp {
            x: tdiv(r.y * f.z - r.z * f.y, SCALE),
            y: tdiv(r.z * f.x - r.x * f.z, SCALE),
            z: tdiv(r.x * f.y - r.y * f.x, SCALE),
        };
        proof {
            lemma_abs_mul_bound(r.x as int, sx as int, SCALE as int, 3320);
            lemma_abs_mul_bound(r.y as int, sx as int, SCALE as int, 3320);
            lemma_abs_mul_bound(r.z as int, sx as int, SCALE as int, 3320);
            lemma_tdiv_bound(r.x as int * sx as int, SCALE as int, 3320);
            lemma_tdiv_bound(r.y as int * sx as int, SCALE as int, 3320);
            lemma_tdiv_bound(r.z as int * sx as int, SCALE as int, 3320);
            lemma_abs_mul_bound(u.x as int, sy as int, 2 * SCALE as int, 415);
            lemma_abs_mul_bound(u.y as int, sy as int, 2 * SCALE as int, 415);
            lemma_abs_mul_bound(u.z as int, sy as int, 2 * SCALE as int, 415);
            lemma_tdiv_bound(u.x as int * sy as int, SCALE as int, 830);
            lemma_tdiv_bound(u.y as int * sy as int, SCALE as int, 830);
            lemma_tdiv_bound(u.z as int * sy as int, SCALE as int, 830);
        }
        let dir_raw = Vec3Fp {
            x: f.x + tdiv(r.x * sx, SCALE) + tdiv(u.x * sy, SCALE),
            y: f.y + tdiv(r.y * sx, SCALE) + tdiv(u.y * sy, SCALE),
            z: f.z + tdiv(r.z * sx, SCALE) + tdiv(u.z * sy, SCALE),
        };
        proof {
            assert(dir_raw == self.spec_dir_raw(px));
        }
        let dir = dir_raw.norm_or_zero();
        Ray { origin: self.pos, dir }
    }
}

/// Rotation can never invert the up direction: whatever the sequence of
/// pointer deltas, the pitch stays strictly inside the open interval
/// around level, and the camera stays well formed.
pub proof fn lemma_rotate_all_pitch_clamped(c: Camera, ds: Seq<(int, int)>)
    requires
        c.wf(),
    ensures
        c.spec_rotate_all(ds).wf(),
        -QUARTER_TURN < c.spec_rotate_all(ds).pitch < QUARTER_TURN,
    decreases ds.len(),
{
    if ds.len() == 0 {
    } else {
        let c1 = c.spec_rotate(ds[0].0, ds[0].1);
        vstd::arithmetic::div_mod::lemma_mod_bound(
            c.yaw + spec_tdiv(ds[0].0 * SENSITIVITY, SCALE as int),
            FULL_TURN as int,
        );
        assert(c1.wf());
        lemma_rotate_all_pitch_clamped(c1, ds.drop_first());
    }
}

/// Through the exact center pixel the ray's direction is the camera's
/// normalized forward vector, for every position and orientation.
pub proof fn lemma_center_ray_matches_forward(c: Camera)
    requires
        c.wf(),
    ensures
        c.spec_ray_through_pixel(c.spec_center_pixel()).origin == c.pos,
        c.spec_ray_through_pixel(c.spec_center_pixel()).dir
            == c.spec_forward().spec_norm_or_zero(),
{
    let px = c.spec_center_pixel();
    let half_w = c.viewport_w as int / 2;
    let half_h = c.viewport_h as int / 2;
    vstd::arithmetic::div_mod::lemma_div_pos_is_pos(c.viewport_w as int, 2);
    vstd::arithmetic::div_mod::lemma_div_pos_is_pos(c.viewport_h as int, 2);
    assert(px.x == half_w && px.y == half_h);
    assert((px.x - half_w) * SCALE == 0) by (nonlinear_arith)
        requires
            px.x == half_w,
    {}
    assert((half_h - px.y) * SCALE == 0) by (nonlinear_arith)
        requires
            px.y == half_h,
    {}
    lemma_zero_tdiv(half_w);
    lemma_zero_tdiv(half_h);
    let f = c.spec_forward();
    let r = c.spec_right();
    let u = c.spec_up();
    assert(spec_tdiv(0 * TAN_HALF_FOV, SCALE as int) == 0) by {
        lemma_zero_tdiv(SCALE as int);
    }
    let aspect = spec_tdiv(c.viewport_w as int * SCALE, c.viewport_h as int);
    assert(spec_tdiv(0 * aspect, SCALE as int) == 0) by {
        lemma_zero_tdiv(SCALE as int);
    }
    assert(spec_tdiv(r.x * 0, SCALE as int) == 0 && spec_tdiv(u.x * 0, SCALE as int) == 0
        && spec_tdiv(r.y * 0, SCALE as int) == 0 && spec_tdiv(u.y * 0, SCALE as int) == 0
        && spec_tdiv(r.z * 0, SCALE as int) == 0 && spec_tdiv(u.z * 0, SCALE as int) == 0) by {
        lemma_zero_tdiv(SCALE as int);
    }
    assert(c.spec_dir_raw(px) == f);
}

/// Zero divided by anything positive is zero.
proof fn lemma_zero_tdiv(b: int)
    requires
        b > 0,
    ensures
        spec_tdiv(0, b) == 0,
{
    vstd::arithmetic::div_mod::lemma_div_pos_is_pos(0, b);
    vstd::arithmetic::div_mod::lemma_div_nonincreasing(0, b);
}

} // verus!
