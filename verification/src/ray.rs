//! Rays: an origin and a fixed-point direction, queried by parameter.

use vstd::prelude::*;
use crate::fixed::{SCALE, spec_tdiv, tdiv};
use crate::vec3::{Vec3Fp, lemma_abs_mul_bound};

verus! {

/// Bound on a ray origin's components.
pub const RAY_ORIGIN_LIMIT: i64 = 200_000_000;

/// Largest parameter value the march may use.
pub const RAY_T_LIMIT: i64 = 40_000_000;

/// A ray: origin plus direction. The direction is fixed-point with length
/// about `SCALE`, so the parameter of [`Ray::at`] measures world distance.
#[derive(Clone, Copy, Debug, PartialEq, Eq, Structural)]
pub struct Ray {
    pub origin: Vec3Fp,
    pub dir: Vec3Fp,
}

impl Vec3Fp {
    /// Each component within the march range of `o`'s.
    pub open spec fn near(self, o: Vec3Fp) -> bool {
        &&& -RAY_T_LIMIT <= self.x - o.x <= RAY_T_LIMIT
        &&& -RAY_T_LIMIT <= self.y - o.y <= RAY_T_LIMIT
        &&& -RAY_T_LIMIT <= self.z - o.z <= RAY_T_LIMIT
    }
}

impl Ray {
    /// Origin in world range, direction componentwise within `SCALE`.
    pub open spec fn wf(self) -> bool {
        self.origin.bounded(RAY_ORIGIN_LIMIT as int) && self.dir.bounded(SCALE as int)
    }

    /// The point at parameter `t`: `origin + dir * t / SCALE`.
    pub open spec fn spec_at(self, t: int) -> Vec3Fp {
        Vec3Fp {
            x: (self.origin.x + spec_tdiv(self.dir.x * t, SCALE as int)) as i64,
            y: (self.origin.y + spec_tdiv(self.dir.y * t, SCALE as int)) as i64,
            z: (self.origin.z + spec_tdiv(self.dir.z * t, SCALE as int)) as i64,
        }
    }

    pub fn new(origin: Vec3Fp, dir: Vec3Fp) -> (r: Ray)
        ensures
            r.origin == origin,
            r.dir == dir,
    {
        Ray { origin, dir }
    }

    /// Evaluates the ray at parameter `t`.
    pub fn at(&self, t: i64) -> (r: Vec3Fp)
        requires
            self.wf(),
            0 <= t <= RAY_T_LIMIT,
        ensures
            r == self.spec_at(t as int),
            r.bounded(RAY_ORIGIN_LIMIT as int + RAY_T_LIMIT as int),
            r.near(self.origin),
    {
        proof {
            lemma_abs_mul_bound(self.dir.x as int, t as int, SCALE as int, RAY_T_LIMIT as int);
            lemma_abs_mul_bound(self.dir.y as int, t as int, SCALE as int, RAY_T_LIMIT as int);
            lemma_abs_mul_bound(self.dir.z as int, t as int, SCALE as int, RAY_T_LIMIT as int);
            assert(SCALE as int * (RAY_T_LIMIT as int) == RAY_T_LIMIT as int * (SCALE as int))
                by (nonlinear_arith) {}
            crate::fixed::lemma_tdiv_bound(
                self.dir.x as int * t as int,
                SCALE as int,
                RAY_T_LIMIT as int,
            );
            crate::fixed::lemma_tdiv_bound(
                self.dir.y as int * t as int,
                SCALE as int,
                RAY_T_LIMIT as int,
            );
            crate::fixed::lemma_tdiv_bound(
                self.dir.z as int * t as int,
                SCALE as int,
                RAY_T_LIMIT as int,
            );
        }
        Vec3Fp {
            x: self.origin.x + tdiv(self.dir.x * t, SCALE),
            y: self.origin.y + tdiv(self.dir.y * t, SCALE),
            z: self.origin.z + tdiv(self.dir.z * t, SCALE),
        }
    }
}

} // verus!
