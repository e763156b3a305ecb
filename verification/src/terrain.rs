//! The height-field terrain: grid storage, bilinear sampling, ray
//! intersection by march-and-refine, and the sculpting brush.

use vstd::prelude::*;
use vstd::arithmetic::div_mod::*;
use vstd::arithmetic::mul::lemma_mul_inequality;
use crate::fixed::{
    SCALE, clamp_i64, spec_clamp, spec_tdiv, tdiv, lemma_tdiv_bound,
};
use crate::vec3::{Vec2Fp, Vec3Fp, lemma_abs_mul_bound};
use crate::ray::{Ray, RAY_ORIGIN_LIMIT, RAY_T_LIMIT};

verus! {

/// Largest grid side, in samples.
pub const GRID_MAX: usize = 1024;

/// Bounds on the sample spacing, fixed-point world units.
pub const CELL_MIN: i64 = 100;

pub const CELL_MAX: i64 = 16_000;

/// Bound on the grid origin offset.
pub const ORIGIN_LIMIT: i64 = 50_000_000;

/// Heights are kept within this bound so sculpting arithmetic stays exact.
pub const HEIGHT_LIMIT: i64 = 100_000_000;

/// Brush radius bounds and scroll step, fixed-point world units.
pub const BRUSH_MIN: i64 = 100;

pub const BRUSH_MAX: i64 = 200_000;

pub const BRUSH_SCROLL_STEP: i64 = 1500;

/// Sculpt rate at the brush center, height units per second.
pub const BRUSH_RATE: i64 = 20_000;

/// The sculpting brush: a radius, clamped into `[BRUSH_MIN, BRUSH_MAX]`.
#[derive(Clone, Copy, Debug, PartialEq, Eq, Structural)]
pub struct Brush {
    pub size: i64,
}

impl Brush {
    /// The radius honors its configured range.
    pub open spec fn wf(self) -> bool {
        BRUSH_MIN <= self.size <= BRUSH_MAX
    }

    /// Applies a scroll delta to the radius; the result is pinned exactly
    /// at the range bounds, never beyond, whatever the delta.
    pub fn adjust(&mut self, scroll_y: i64)
        requires
            -1_000_000_000 <= scroll_y <= 1_000_000_000,
            -1_000_000_000 <= old(self).size <= 1_000_000_000,
        ensures
            final(self).size == spec_clamp(
                old(self).size - spec_tdiv(scroll_y * BRUSH_SCROLL_STEP, SCALE as int),
                BRUSH_MIN as int,
                BRUSH_MAX as int,
            ),
            final(self).wf(),
    {
        proof {
            lemma_abs_mul_bound(
                scroll_y as int,
                BRUSH_SCROLL_STEP as int,
                1_000_000_000,
                BRUSH_SCROLL_STEP as int,
            );
        }
        let step = tdiv(scroll_y * BRUSH_SCROLL_STEP, SCALE);
        self.size = clamp_i64(self.size - step, BRUSH_MIN, BRUSH_MAX);
    }
}

/// The terrain: a fixed-size grid of height samples over a world-space
/// footprint, with derived per-sample normals, a brush and the cursor point
/// the pointer currently picks on the surface.
pub struct Terrain {
    /// Samples along the world `x` axis.
    pub cols: usize,
    /// Samples along the world `z` axis.
    pub rows: usize,
    /// World-space spacing between samples.
    pub cell: i64,
    /// World-space position of sample `(0, 0)`.
    pub origin_x: i64,
    pub origin_z: i64,
    /// Height samples, row-major: index `z * cols + x`.
    pub heights: Vec<i64>,
    /// Derived per-sample normals (unnormalized), same layout.
    pub normals: Vec<Vec3Fp>,
    /// The sculpting brush.
    pub brush: Brush,
    /// Terrain-space point under the pointer (`x`,`y` hold world `x`,`z`),
    /// or `None` when the last ray missed.
    pub cursor: Option<Vec2Fp>,
}

/// Row-major index of sample `(x, z)`.
pub open spec fn grid_idx(cols: int, x: int, z: int) -> int {
    z * cols + x
}

/// A grid index stays within the flat storage.
pub proof fn lemma_grid_idx_bounds(cols: int, rows: int, x: int, z: int)
    requires
        0 < cols,
        0 < rows,
        0 <= x < cols,
        0 <= z < rows,
    ensures
        0 <= grid_idx(cols, x, z) < rows * cols,
{
    assert(0 <= z * cols + x < rows * cols) by (nonlinear_arith)
        requires
            0 < cols,
            0 < rows,
            0 <= x < cols,
            0 <= z < rows,
    {}
}

/// The outward normal at a sample, from central differences of its
/// neighbors (clamped at the grid edge), scaled so no square root is
/// needed: `(h_left - h_right, 2 * cell, h_near - h_far)`.
#[verifier::opaque]
pub open spec fn spec_normal(s: Seq<i64>, cols: int, rows: int, cell: int, x: int, z: int) -> Vec3Fp {
    let xm = if x > 0 { x - 1 } else { x };
    let xp = if x + 1 < cols { x + 1 } else { x };
    let zm = if z > 0 { z - 1 } else { z };
    let zp = if z + 1 < rows { z + 1 } else { z };
    Vec3Fp {
        x: (s[grid_idx(cols, xm, z)] - s[grid_idx(cols, xp, z)]) as i64,
        y: (2 * cell) as i64,
        z: (s[grid_idx(cols, x, zm)] - s[grid_idx(cols, x, zp)]) as i64,
    }
}

impl Terrain {
    /// Dimensions, spacing and origin sit in their configured ranges.
    pub open spec fn dims_wf(self) -> bool {
        &&& 2 <= self.cols <= GRID_MAX
        &&& 2 <= self.rows <= GRID_MAX
        &&& CELL_MIN <= self.cell <= CELL_MAX
        &&& -ORIGIN_LIMIT <= self.origin_x <= ORIGIN_LIMIT
        &&& -ORIGIN_LIMIT <= self.origin_z <= ORIGIN_LIMIT
    }

    /// All stored heights sit within the height bound.
    pub open spec fn heights_wf(self) -> bool {
        &&& self.heights@.len() == self.rows * self.cols
        &&& forall|k: int|
            0 <= k < self.heights@.len() ==> -HEIGHT_LIMIT <= #[trigger] self.heights@[k]
                <= HEIGHT_LIMIT
    }

    /// Every stored normal agrees with the formula over the stored heights.
    pub open spec fn normals_wf(self) -> bool {
        &&& self.normals@.len() == self.rows * self.cols
        &&& forall|x: int, z: int|
            0 <= x < self.cols && 0 <= z < self.rows ==> self.normals@[#[trigger] grid_idx(
                self.cols as int,
                x,
                z,
            )] == spec_normal(
                self.heights@,
                self.cols as int,
                self.rows as int,
                self.cell as int,
                x,
                z,
            )
    }

    /// Terrain invariant.
    pub open spec fn wf(self) -> bool {
        &&& self.dims_wf()
        &&& self.heights_wf()
        &&& self.normals_wf()
        &&& self.brush.wf()
        &&& match self.cursor {
            Some(c) => c.bounded(200_000_000),
            None => true,
        }
    }

    /// World `x` of the last sample column.
    pub open spec fn spec_max_x(self) -> int {
        self.origin_x + (self.cols - 1) * self.cell
    }

    /// World `z` of the last sample row.
    pub open spec fn spec_max_z(self) -> int {
        self.origin_z + (self.rows - 1) * self.cell
    }

    /// A flat terrain of `cols` by `rows` samples at height `initial`.
    pub fn new(cols: usize, rows: usize, cell: i64, origin: Vec2Fp, initial: i64) -> (r: Terrain)
        requires
            2 <= cols <= GRID_MAX,
            2 <= rows <= GRID_MAX,
            CELL_MIN <= cell <= CELL_MAX,
            -ORIGIN_LIMIT <= origin.x <= ORIGIN_LIMIT,
            -ORIGIN_LIMIT <= origin.y <= ORIGIN_LIMIT,
            -HEIGHT_LIMIT <= initial <= HEIGHT_LIMIT,
        ensures
            r.wf(),
            r.cols == cols,
            r.rows == rows,
            r.cell == cell,
            r.origin_x == origin.x,
            r.origin_z == origin.y,
            r.cursor is None,
            forall|k: int| 0 <= k < r.heights@.len() ==> #[trigger] r.heights@[k] == initial,
    {
        proof {
            assert(rows * cols <= GRID_MAX * GRID_MAX) by (nonlinear_arith)
                requires
                    rows <= GRID_MAX && cols <= GRID_MAX,
            {}
        }
        let n = rows * cols;
        let mut heights: Vec<i64> = Vec::new();
        let mut i: usize = 0;
        while i < n
            invariant
                heights@.len() == i,
                i <= n,
                forall|k: int| 0 <= k < i ==> #[trigger] heights@[k] == initial,
            decreases n - i,
        {
            heights.push(initial);
            i = i + 1;
        }
        let mut normals: Vec<Vec3Fp> = Vec::new();
        let mut j: usize = 0;
        while j < n
            invariant
                normals@.len() == j,
                j <= n,
                CELL_MIN <= cell <= CELL_MAX,
                forall|k: int|
                    0 <= k < j ==> #[trigger] normals@[k] == (Vec3Fp {
                        x: 0,
                        y: (2 * cell) as i64,
                        z: 0,
                    }),
            decreases n - j,
        {
            normals.push(Vec3Fp { x: 0, y: 2 * cell, z: 0 });
            j = j + 1;
        }
        let ghost hs = heights@;
        let ghost ns = normals@;
        let r = Terrain {
            cols,
            rows,
            cell,
            origin_x: origin.x,
            origin_z: origin.y,
            heights,
            normals,
            brush: Brush { size: 5_000 },
            cursor: None,
        };
        proof {
            reveal(spec_normal);
            assert(r.heights@ == hs);
            assert(r.normals@ == ns);
            assert forall|x: int, z: int|
                0 <= x < r.cols && 0 <= z < r.rows implies #[trigger] r.normals@[grid_idx(
                r.cols as int,
                x,
                z,
            )] == spec_normal(r.heights@, r.cols as int, r.rows as int, r.cell as int, x, z) by {
                lemma_grid_idx_bounds(r.cols as int, r.rows as int, x, z);
                let xm = if x > 0 { x - 1 } else { x };
                let xp = if x + 1 < r.cols { x + 1 } else { x };
                let zm = if z > 0 { z - 1 } else { z };
                let zp = if z + 1 < r.rows { z + 1 } else { z };
                lemma_grid_idx_bounds(r.cols as int, r.rows as int, xm, z);
                lemma_grid_idx_bounds(r.cols as int, r.rows as int, xp, z);
                lemma_grid_idx_bounds(r.cols as int, r.rows as int, x, zm);
                lemma_grid_idx_bounds(r.cols as int, r.rows as int, x, zp);
                assert(hs[grid_idx(r.cols as int, xm, z)] == initial);
                assert(hs[grid_idx(r.cols as int, xp, z)] == initial);
                assert(hs[grid_idx(r.cols as int, x, zm)] == initial);
                assert(hs[grid_idx(r.cols as int, x, zp)] == initial);
                assert(ns[grid_idx(r.cols as int, x, z)] == (Vec3Fp {
                    x: 0,
                    y: (2 * cell) as i64,
                    z: 0,
                }));
            }
        }
        r
    }
}

} // verus!

verus! {

/// Index of the cell containing axis offset `d`, clamped so a full
/// bilinear cell `[i, i+1]` exists.
pub open spec fn spec_axis_cell(d: int, cell: int, n: int) -> int {
    let i = d / cell;
    if i > n - 2 {
        n - 2
    } else {
        i
    }
}

/// Cell index and intra-cell offset along one axis.
fn axis_coord(d: i64, cell: i64, n: usize) -> (r: (usize, i64))
    requires
        CELL_MIN <= cell <= CELL_MAX,
        2 <= n <= GRID_MAX,
        0 <= d,
        d <= (n - 1) * cell,
    ensures
        r.0 as int == spec_axis_cell(d as int, cell as int, n as int),
        r.0 <= n - 2,
        r.1 == d - spec_axis_cell(d as int, cell as int, n as int) * cell,
        0 <= r.1 <= cell,
{
    let q = d / cell;
    proof {
        lemma_div_pos_is_pos(d as int, cell as int);
        lemma_fundamental_div_mod(d as int, cell as int);
        lemma_mod_bound(d as int, cell as int);
        assert((n - 1) * cell == (n - 1) as int * cell as int);
        lemma_div_is_ordered(d as int, (n - 1) as int * cell as int, cell as int);
        assert(((n - 1) as int * cell as int) / (cell as int) == n - 1) by {
            lemma_div_multiples_vanish((n - 1) as int, cell as int);
            assert((n - 1) as int * cell as int == cell as int * (n - 1) as int)
                by (nonlinear_arith) {}
        }
    }
    if q > (n as i64) - 2 {
        let ix = n - 2;
        proof {
            assert(d as int >= (n - 1) * (cell as int)) by {
                assert(q as int == n - 1);
                assert(cell as int * (q as int) <= d as int);
                assert(cell as int * (q as int) == (n - 1) * (cell as int)) by (nonlinear_arith)
                    requires
                        q as int == n - 1,
                {}
            }
            assert((n - 1) * (cell as int) - (n - 2) * (cell as int) == cell as int)
                by (nonlinear_arith) {}
            assert((n - 2) * (cell as int) >= 0) by (nonlinear_arith)
                requires
                    n >= 2,
                    cell > 0,
            {}
        }
        let fx = d - ((ix as i64) * cell);
        (ix, fx)
    } else {
        let ix = q as usize;
        proof {
            assert(cell as int * (q as int) <= d as int);
            assert(d as int - q as int * (cell as int) == d as int % (cell as int)) by {
                assert(cell as int * (q as int) == q as int * (cell as int)) by (nonlinear_arith) {}
            }
            assert(q as int * (cell as int) >= 0) by (nonlinear_arith)
                requires
                    q >= 0,
                    cell > 0,
            {}
        }
        let fx = d - ((ix as i64) * cell);
        (ix, fx)
    }
}

impl Terrain {
    /// Whether the horizontal point lies over the grid's footprint.
    pub open spec fn spec_inside(self, wx: int, wz: int) -> bool {
        self.origin_x <= wx <= self.spec_max_x() && self.origin_z <= wz <= self.spec_max_z()
    }

    /// Bilinearly interpolated surface height at a horizontal world point;
    /// points outside the footprint sample the clamped edge.
    pub open spec fn spec_sample(self, wx: int, wz: int) -> int {
        let cx = spec_clamp(wx, self.origin_x as int, self.spec_max_x());
        let cz = spec_clamp(wz, self.origin_z as int, self.spec_max_z());
        let dx = cx - self.origin_x;
        let dz = cz - self.origin_z;
        let cols = self.cols as int;
        let rows = self.rows as int;
        let cell = self.cell as int;
        let ix = spec_axis_cell(dx, cell, cols);
        let iz = spec_axis_cell(dz, cell, rows);
        let fx = dx - ix * cell;
        let fz = dz - iz * cell;
        let h00 = self.heights@[grid_idx(cols, ix, iz)];
        let h10 = self.heights@[grid_idx(cols, ix + 1, iz)];
        let h01 = self.heights@[grid_idx(cols, ix, iz + 1)];
        let h11 = self.heights@[grid_idx(cols, ix + 1, iz + 1)];
        let hx0 = spec_tdiv(h00 * (cell - fx) + h10 * fx, cell);
        let hx1 = spec_tdiv(h01 * (cell - fx) + h11 * fx, cell);
        spec_tdiv(hx0 * (cell - fz) + hx1 * fz, cell)
    }

    /// Whether the horizontal point lies over the footprint.
    pub fn inside(&self, wx: i64, wz: i64) -> (r: bool)
        requires
            self.dims_wf(),
            -1_000_000_000 <= wx <= 1_000_000_000,
            -1_000_000_000 <= wz <= 1_000_000_000,
        ensures
            r == self.spec_inside(wx as int, wz as int),
    {
        proof {
            lemma_extent_bounds(self.cols as int, self.cell as int);
            lemma_extent_bounds(self.rows as int, self.cell as int);
        }
        let max_x = self.origin_x + ((self.cols as i64) - 1) * self.cell;
        let max_z = self.origin_z + ((self.rows as i64) - 1) * self.cell;
        wx >= self.origin_x && wx <= max_x && wz >= self.origin_z && wz <= max_z
    }

    /// Samples the surface height under a horizontal world point.
    pub fn height_at(&self, wx: i64, wz: i64) -> (r: i64)
        requires
            self.dims_wf(),
            self.heights_wf(),
            -1_000_000_000 <= wx <= 1_000_000_000,
            -1_000_000_000 <= wz <= 1_000_000_000,
        ensures
            r == self.spec_sample(wx as int, wz as int),
            -HEIGHT_LIMIT <= r <= HEIGHT_LIMIT,
    {
        proof {
            lemma_extent_bounds(self.cols as int, self.cell as int);
            lemma_extent_bounds(self.rows as int, self.cell as int);
        }
        let max_x = self.origin_x + ((self.cols as i64) - 1) * self.cell;
        let max_z = self.origin_z + ((self.rows as i64) - 1) * self.cell;
        let cx = clamp_i64(wx, self.origin_x, max_x);
        let cz = clamp_i64(wz, self.origin_z, max_z);
        let dx = cx - self.origin_x;
        let dz = cz - self.origin_z;
        let (ix, fx) = axis_coord(dx, self.cell, self.cols);
        let (iz, fz) = axis_coord(dz, self.cell, self.rows);
        proof {
            lemma_grid_idx_bounds(self.cols as int, self.rows as int, ix as int, iz as int);
            lemma_grid_idx_bounds(self.cols as int, self.rows as int, ix as int + 1, iz as int);
            lemma_grid_idx_bounds(self.cols as int, self.rows as int, ix as int, iz as int + 1);
            lemma_grid_idx_bounds(self.cols as int, self.rows as int, ix as int + 1, iz as int + 1);
            assert((iz as int) * (self.cols as int) <= GRID_MAX * GRID_MAX
                && (iz as int + 1) * (self.cols as int) <= GRID_MAX * (GRID_MAX + 1)
                && 0 <= (iz as int) * (self.cols as int)
                && 0 <= (iz as int + 1) * (self.cols as int)) by (nonlinear_arith)
                requires
                    iz < GRID_MAX,
                    0 < self.cols <= GRID_MAX,
            {}
        }
        let row0 = iz * self.cols;
        let row1 = (iz + 1) * self.cols;
        let h00 = self.heights[row0 + ix];
        let h10 = self.heights[row0 + ix + 1];
        let h01 = self.heights[row1 + ix];
        let h11 = self.heights[row1 + ix + 1];
        proof {
            lemma_abs_mul_bound(h00 as int, (self.cell - fx) as int, HEIGHT_LIMIT as int, CELL_MAX as int);
            lemma_abs_mul_bound(h10 as int, fx as int, HEIGHT_LIMIT as int, CELL_MAX as int);
            lemma_abs_mul_bound(h01 as int, (self.cell - fx) as int, HEIGHT_LIMIT as int, CELL_MAX as int);
            lemma_abs_mul_bound(h11 as int, fx as int, HEIGHT_LIMIT as int, CELL_MAX as int);
            lemma_lerp_bound(h00 as int, h10 as int, fx as int, self.cell as int);
            lemma_lerp_bound(h01 as int, h11 as int, fx as int, self.cell as int);
        }
        let hx0 = tdiv(h00 * (self.cell - fx) + h10 * fx, self.cell);
        let hx1 = tdiv(h01 * (self.cell - fx) + h11 * fx, self.cell);
        proof {
            lemma_abs_mul_bound(hx0 as int, (self.cell - fz) as int, HEIGHT_LIMIT as int, CELL_MAX as int);
            lemma_abs_mul_bound(hx1 as int, fz as int, HEIGHT_LIMIT as int, CELL_MAX as int);
            lemma_lerp_bound(hx0 as int, hx1 as int, fz as int, self.cell as int);
        }
        tdiv(hx0 * (self.cell - fz) + hx1 * fz, self.cell)
    }
}

/// The footprint extent fits comfortably in range.
proof fn lemma_extent_bounds(n: int, cell: int)
    requires
        2 <= n <= GRID_MAX,
        CELL_MIN <= cell <= CELL_MAX,
    ensures
        0 < (n - 1) * cell <= 20_000_000,
{
    assert(0 < (n - 1) * cell <= 20_000_000) by (nonlinear_arith)
        requires
            2 <= n <= GRID_MAX,
            CELL_MIN <= cell <= CELL_MAX,
    {}
}

/// A convex blend of two bounded heights, divided by the cell size, stays
/// within the height bound.
proof fn lemma_lerp_bound(a: int, b: int, f: int, cell: int)
    requires
        -HEIGHT_LIMIT <= a <= HEIGHT_LIMIT,
        -HEIGHT_LIMIT <= b <= HEIGHT_LIMIT,
        0 <= f <= cell,
        CELL_MIN <= cell <= CELL_MAX,
    ensures
        -HEIGHT_LIMIT <= spec_tdiv(a * (cell - f) + b * f, cell) <= HEIGHT_LIMIT,
{
    assert(-(HEIGHT_LIMIT * cell) <= a * (cell - f) + b * f <= HEIGHT_LIMIT * cell)
        by (nonlinear_arith)
        requires
            -HEIGHT_LIMIT <= a <= HEIGHT_LIMIT,
            -HEIGHT_LIMIT <= b <= HEIGHT_LIMIT,
            0 <= f <= cell,
            cell > 0,
    {}
    lemma_tdiv_bound(a * (cell - f) + b * f, cell, HEIGHT_LIMIT as int);
}

} // verus!

verus! {

/// Step budget of the ray march; a degenerate ray cannot stall a frame.
pub const MAX_MARCH_STEPS: usize = 4096;

/// Bisection iterations once a crossing is bracketed; the bracket shrinks
/// to well under one height sub-unit.
pub const REFINE_STEPS: usize = 24;

impl Terrain {
    /// Whether the ray's point at `t` is on or above the surface.
    pub open spec fn spec_above(self, ray: Ray, t: int) -> bool {
        let p = ray.spec_at(t);
        p.y >= self.spec_sample(p.x as int, p.z as int)
    }

    /// March step: half a cell.
    pub open spec fn spec_march_step(self) -> int {
        self.cell as int / 2
    }

    /// Bisection within a bracketed crossing: after `k` halvings the
    /// midpoint of the bracket is the reported point.
    pub open spec fn spec_refine(self, ray: Ray, lo: int, above_lo: bool, hi: int, k: nat) -> Vec3Fp
        decreases k,
    {
        if k == 0 {
            ray.spec_at((lo + hi) / 2)
        } else {
            let mid = (lo + hi) / 2;
            if self.spec_above(ray, mid) == above_lo {
                self.spec_refine(ray, mid, above_lo, hi, (k - 1) as nat)
            } else {
                self.spec_refine(ray, lo, above_lo, mid, (k - 1) as nat)
            }
        }
    }

    /// The march from step `i` on, carrying the previous in-footprint
    /// sample: the first sign change of "ray above surface" between two
    /// consecutive in-footprint samples brackets the crossing, which is
    /// then refined; leaving the footprint resets the bracket.
    pub open spec fn spec_march(self, ray: Ray, i: nat, prev: Option<(i64, bool)>) -> Option<Vec3Fp>
        decreases MAX_MARCH_STEPS - i,
    {
        if i >= MAX_MARCH_STEPS {
            None
        } else {
            let t = i * self.spec_march_step();
            let p = ray.spec_at(t);
            if self.spec_inside(p.x as int, p.z as int) {
                let above = p.y >= self.spec_sample(p.x as int, p.z as int);
                match prev {
                    Some(pr) => if pr.1 != above {
                        Some(self.spec_refine(ray, pr.0 as int, pr.1, t, REFINE_STEPS as nat))
                    } else {
                        self.spec_march(ray, (i + 1) as nat, Some((t as i64, above)))
                    },
                    None => self.spec_march(ray, (i + 1) as nat, Some((t as i64, above))),
                }
            } else {
                self.spec_march(ray, (i + 1) as nat, None)
            }
        }
    }

    /// A conservative bounding-volume test: rays that start beyond the
    /// footprint or the height bound and point away can never cross.
    pub open spec fn spec_reject(self, ray: Ray) -> bool {
        ||| (ray.origin.y > HEIGHT_LIMIT && ray.dir.y >= 0)
        ||| (ray.origin.y < -HEIGHT_LIMIT && ray.dir.y <= 0)
        ||| (ray.origin.x < self.origin_x && ray.dir.x <= 0)
        ||| (ray.origin.x > self.spec_max_x() && ray.dir.x >= 0)
        ||| (ray.origin.z < self.origin_z && ray.dir.z <= 0)
        ||| (ray.origin.z > self.spec_max_z() && ray.dir.z >= 0)
    }

    /// The nearest surface crossing the march finds, if any. A pure
    /// function of the ray and the terrain: casting the same ray against
    /// unchanged terrain always reports the same point.
    pub open spec fn spec_intersect(self, ray: Ray) -> Option<Vec3Fp> {
        if self.spec_reject(ray) {
            None
        } else {
            self.spec_march(ray, 0, None)
        }
    }

    fn refine(&self, ray: &Ray, lo0: i64, above_lo: bool, hi0: i64) -> (r: Vec3Fp)
        requires
            self.dims_wf(),
            self.heights_wf(),
            ray.wf(),
            0 <= lo0 <= RAY_T_LIMIT,
            0 <= hi0 <= RAY_T_LIMIT,
        ensures
            r == self.spec_refine(*ray, lo0 as int, above_lo, hi0 as int, REFINE_STEPS as nat),
            r.bounded(RAY_ORIGIN_LIMIT as int + RAY_T_LIMIT as int),
            r.near(ray.origin),
    {
        let mut lo = lo0;
        let mut hi = hi0;
        let mut k = REFINE_STEPS;
        while k > 0
            invariant
                self.dims_wf(),
                self.heights_wf(),
                ray.wf(),
                0 <= lo <= RAY_T_LIMIT,
                0 <= hi <= RAY_T_LIMIT,
                k <= REFINE_STEPS,
                self.spec_refine(*ray, lo as int, above_lo, hi as int, k as nat)
                    == self.spec_refine(*ray, lo0 as int, above_lo, hi0 as int, REFINE_STEPS as nat),
            decreases k,
        {
            let mid = (lo + hi) / 2;
            let p = ray.at(mid);
            let above = p.y >= self.height_at(p.x, p.z);
            if above == above_lo {
                lo = mid;
            } else {
                hi = mid;
            }
            k = k - 1;
        }
        ray.at((lo + hi) / 2)
    }

    /// Casts a ray against the surface: the nearest crossing within the
    /// march budget, or `None` when the ray misses.
    pub fn intersect_with_ray(&self, ray: &Ray) -> (r: Option<Vec3Fp>)
        requires
            self.dims_wf(),
            self.heights_wf(),
            ray.wf(),
        ensures
            r == self.spec_intersect(*ray),
            r matches Some(p) ==> p.bounded(RAY_ORIGIN_LIMIT as int + RAY_T_LIMIT as int)
                && p.near(ray.origin),
    {
        proof {
            lemma_extent_bounds(self.cols as int, self.cell as int);
            lemma_extent_bounds(self.rows as int, self.cell as int);
        }
        let max_x = self.origin_x + ((self.cols as i64) - 1) * self.cell;
        let max_z = self.origin_z + ((self.rows as i64) - 1) * self.cell;
        if (ray.origin.y > HEIGHT_LIMIT && ray.dir.y >= 0)
            || (ray.origin.y < -HEIGHT_LIMIT && ray.dir.y <= 0)
            || (ray.origin.x < self.origin_x && ray.dir.x <= 0)
            || (ray.origin.x > max_x && ray.dir.x >= 0)
            || (ray.origin.z < self.origin_z && ray.dir.z <= 0)
            || (ray.origin.z > max_z && ray.dir.z >= 0) {
            return None;
        }
        let step = self.cell / 2;
        let mut i: usize = 0;
        let mut prev: Option<(i64, bool)> = None;
        while i < MAX_MARCH_STEPS
            invariant
                self.dims_wf(),
                self.heights_wf(),
                ray.wf(),
                i <= MAX_MARCH_STEPS,
                step == self.spec_march_step(),
                0 < step <= 8000,
                !self.spec_reject(*ray),
                self.spec_march(*ray, i as nat, prev) == self.spec_march(*ray, 0, None),
                prev matches Some(pr) ==> 0 <= pr.0 <= RAY_T_LIMIT,
            decreases MAX_MARCH_STEPS - i,
        {
            proof {
                assert(0 <= (i as int) * (step as int) <= 4096 * 8000) by (nonlinear_arith)
                    requires
                        0 <= i < 4096,
                        0 < step <= 8000,
                {}
            }
            let t = (i as i64) * step;
            let p = ray.at(t);
            if self.inside(p.x, p.z) {
                let above = p.y >= self.height_at(p.x, p.z);
                match prev {
                    Some(pr) => {
                        if pr.1 != above {
                            proof {
                                assert(t as int == (i as nat) * self.spec_march_step());
                                assert(self.spec_march(*ray, i as nat, prev) == Some(
                                    self.spec_refine(
                                        *ray,
                                        pr.0 as int,
                                        pr.1,
                                        t as int,
                                        REFINE_STEPS as nat,
                                    ),
                                ));
                            }
                            let hit = self.refine(ray, pr.0, pr.1, t);
                            return Some(hit);
                        } else {
                            prev = Some((t, above));
                        }
                    },
                    None => {
                        prev = Some((t, above));
                    },
                }
            } else {
                prev = None;
            }
            i = i + 1;
        }
        None
    }
}

} // verus!

verus! {

impl Terrain {
    /// Squared horizontal distance from `(cx, cz)` to sample `(x, z)`.
    pub open spec fn spec_cell_d2(self, cx: int, cz: int, x: int, z: int) -> int {
        let px = self.origin_x + x * self.cell;
        let pz = self.origin_z + z * self.cell;
        (cx - px) * (cx - px) + (cz - pz) * (cz - pz)
    }

    /// The height a sculpt pass leaves at sample `(x, z)`.
    #[verifier::opaque]
    pub open spec fn spec_sculpt_cell(self, x: int, z: int, base: int, raise: bool) -> int {
        let c = self.cursor.unwrap();
        let h = self.heights@[grid_idx(self.cols as int, x, z)];
        let delta = spec_brush_delta(
            base,
            self.spec_cell_d2(c.x as int, c.y as int, x, z),
            self.brush.size as int,
        );
        if raise {
            spec_clamp(h + delta, -HEIGHT_LIMIT as int, HEIGHT_LIMIT as int)
        } else {
            spec_clamp(h - delta, -HEIGHT_LIMIT as int, HEIGHT_LIMIT as int)
        }
    }
}

/// Center sculpt amount for one frame: the rate scaled by the elapsed time.
pub open spec fn spec_brush_base(dt: int) -> int {
    spec_tdiv(BRUSH_RATE * dt, SCALE as int)
}

/// Magnitude of the height change at squared distance `d2` from the brush
/// center: the base amount under a quadratic falloff (1 at the center, 0
/// at the rim), but at least one height sub-unit anywhere strictly inside
/// the rim, so a sculpting frame always acts on every covered sample.
#[verifier::opaque]
pub open spec fn spec_brush_delta(base: int, d2: int, r: int) -> int {
    if base <= 0 || d2 >= r * r {
        0
    } else {
        let w = ((r * r - d2) * SCALE) / (r * r);
        let d = (base * w) / (SCALE as int);
        if d < 1 {
            1
        } else {
            d
        }
    }
}

/// The brush delta is never negative and never exceeds `max(base, 1)`.
pub proof fn lemma_brush_delta_bounds(base: int, d2: int, r: int)
    requires
        0 < r <= BRUSH_MAX,
        0 <= d2,
        base <= 200_000,
    ensures
        0 <= spec_brush_delta(base, d2, r) <= 200_000,
{
    reveal(spec_brush_delta);
    if base <= 0 || d2 >= r * r {
    } else {
        let r2 = r * r;
        assert(0 < r2 <= BRUSH_MAX * BRUSH_MAX) by (nonlinear_arith)
            requires
                0 < r <= BRUSH_MAX,
                r2 == r * r,
        {}
        let w = ((r2 - d2) * SCALE) / r2;
        assert(0 <= (r2 - d2) * SCALE <= SCALE * r2) by (nonlinear_arith)
            requires
                0 <= r2 - d2 <= r2,
                0 < r2,
        {}
        lemma_tdiv_bound((r2 - d2) * SCALE, r2, SCALE as int);
        assert(w == spec_tdiv((r2 - d2) * SCALE, r2)) by {
            lemma_div_pos_is_pos((r2 - d2) * SCALE, r2);
        }
        assert(0 <= base * w <= base * SCALE) by (nonlinear_arith)
            requires
                0 <= w <= SCALE,
                0 < base,
        {}
        lemma_tdiv_bound(base * w, SCALE as int, base);
        assert(spec_tdiv(base * w, SCALE as int) == (base * w) / (SCALE as int)) by {
            lemma_div_pos_is_pos(base * w, SCALE as int);
        }
    }
}

/// Truncating division leaves the quotient-times-divisor within one
/// divisor of the numerator.
pub proof fn lemma_tdiv_mul_close(a: int, b: int)
    requires
        b > 0,
    ensures
        a - b < spec_tdiv(a, b) * b < a + b,
{
    if a >= 0 {
        lemma_fundamental_div_mod(a, b);
        lemma_mod_bound(a, b);
        assert((a / b) * b == b * (a / b)) by (nonlinear_arith) {}
    } else {
        let m = -a;
        lemma_fundamental_div_mod(m, b);
        lemma_mod_bound(m, b);
        assert((-(m / b)) * b == -(b * (m / b))) by (nonlinear_arith) {}
    }
}

} // verus!

verus! {

/// Longest frame time a sculpt pass accepts, fixed-point seconds.
pub const SCULPT_DT_LIMIT: i64 = 10_000;

/// Step `i` of a bracketed axis: two or more whole cells below the
/// truncated lower bracket index, or above the upper one, lies strictly
/// outside the brush radius.
proof fn lemma_outside_axis_far(origin: int, cell: int, cw: int, r: int, i: int)
    requires
        cell > 0,
        r > 0,
        i <= spec_tdiv(cw - r - origin, cell) - 2 || i >= spec_tdiv(cw + r - origin, cell) + 2,
    ensures
        (cw - (origin + i * cell)) * (cw - (origin + i * cell)) > r * r,
{
    let a0 = cw - r - origin;
    let a1 = cw + r - origin;
    let q0 = spec_tdiv(a0, cell);
    let q1 = spec_tdiv(a1, cell);
    let p = origin + i * cell;
    if i <= q0 - 2 {
        lemma_tdiv_mul_close(a0, cell);
        lemma_mul_inequality(i, q0 - 2, cell);
        assert((q0 - 2) * cell == q0 * cell - 2 * cell) by (nonlinear_arith) {}
        assert(i * cell < a0 - cell);
        assert(cw - p > r);
        assert((cw - p) * (cw - p) > r * r) by (nonlinear_arith)
            requires
                cw - p > r > 0,
        {}
    } else {
        lemma_tdiv_mul_close(a1, cell);
        lemma_mul_inequality(q1 + 2, i, cell);
        assert((q1 + 2) * cell == q1 * cell + 2 * cell) by (nonlinear_arith) {}
        assert(i * cell > a1 + cell);
        assert(p - cw > r);
        assert((cw - p) * (cw - p) > r * r) by (nonlinear_arith)
            requires
                p - cw > r > 0,
        {}
    }
}

/// Magnitude of one frame's sculpt at squared distance `d2`.
fn sculpt_delta(base: i64, d2: i64, r: i64) -> (d: i64)
    requires
        0 <= base <= 200_000,
        0 <= d2,
        BRUSH_MIN <= r <= BRUSH_MAX,
    ensures
        d == spec_brush_delta(base as int, d2 as int, r as int),
        0 <= d <= 200_000,
{
    proof {
        reveal(spec_brush_delta);
        lemma_brush_delta_bounds(base as int, d2 as int, r as int);
        lemma_abs_mul_bound(r as int, r as int, BRUSH_MAX as int, BRUSH_MAX as int);
    }
    let r2 = r * r;
    if base <= 0 || d2 >= r2 {
        0
    } else {
        proof {
            lemma_abs_mul_bound(
                (r2 - d2) as int,
                SCALE as int,
                (BRUSH_MAX * BRUSH_MAX) as int,
                SCALE as int,
            );
            lemma_tdiv_bound((r2 - d2) as int * SCALE as int, r2 as int, SCALE as int);
            assert((r2 - d2) as int * SCALE as int <= SCALE as int * (r2 as int))
                by (nonlinear_arith)
                requires
                    0 <= (r2 - d2) as int <= r2 as int,
                    0 < r2 as int,
            {}
            lemma_div_pos_is_pos((r2 - d2) as int * SCALE as int, r2 as int);
        }
        let w = tdiv((r2 - d2) * SCALE, r2);
        proof {
            assert(0 <= base as int * w as int <= base as int * SCALE as int)
                by (nonlinear_arith)
                requires
                    0 < base as int,
                    0 <= w as int <= SCALE as int,
            {}
            lemma_tdiv_bound(base as int * w as int, SCALE as int, base as int);
            lemma_div_pos_is_pos(base as int * w as int, SCALE as int);
        }
        let d = tdiv(base * w, SCALE);
        if d < 1 {
            1
        } else {
            d
        }
    }
}

impl Terrain {
    /// The normal at sample `(x, z)` over the current heights.
    fn normal_at(&self, x: usize, z: usize) -> (r: Vec3Fp)
        requires
            self.dims_wf(),
            self.heights_wf(),
            x < self.cols,
            z < self.rows,
        ensures
            r == spec_normal(
                self.heights@,
                self.cols as int,
                self.rows as int,
                self.cell as int,
                x as int,
                z as int,
            ),
    {
        proof {
            reveal(spec_normal);
        }
        let xm = if x > 0 { x - 1 } else { x };
        let xp = if x + 1 < self.cols { x + 1 } else { x };
        let zm = if z > 0 { z - 1 } else { z };
        let zp = if z + 1 < self.rows { z + 1 } else { z };
        proof {
            lemma_grid_idx_bounds(self.cols as int, self.rows as int, xm as int, z as int);
            lemma_grid_idx_bounds(self.cols as int, self.rows as int, xp as int, z as int);
            lemma_grid_idx_bounds(self.cols as int, self.rows as int, x as int, zm as int);
            lemma_grid_idx_bounds(self.cols as int, self.rows as int, x as int, zp as int);
            assert((z as int) * (self.cols as int) <= GRID_MAX * GRID_MAX
                && (zm as int) * (self.cols as int) <= GRID_MAX * GRID_MAX
                && (zp as int) * (self.cols as int) <= GRID_MAX * GRID_MAX
                && 0 <= (z as int) * (self.cols as int)
                && 0 <= (zm as int) * (self.cols as int)
                && 0 <= (zp as int) * (self.cols as int)) by (nonlinear_arith)
                requires
                    z < GRID_MAX,
                    zm < GRID_MAX,
                    zp < GRID_MAX,
                    0 < self.cols <= GRID_MAX,
            {}
        }
        let hl = self.heights[z * self.cols + xm];
        let hr = self.heights[z * self.cols + xp];
        let hn = self.heights[zm * self.cols + x];
        let hf = self.heights[zp * self.cols + x];
        Vec3Fp { x: hl - hr, y: 2 * self.cell, z: hn - hf }
    }
}

} // verus!

verus! {

/// Distinct samples occupy distinct flat indices.
proof fn lemma_grid_idx_injective(cols: int, x1: int, z1: int, x2: int, z2: int)
    requires
        0 < cols,
        0 <= x1 < cols,
        0 <= x2 < cols,
        grid_idx(cols, x1, z1) == grid_idx(cols, x2, z2),
    ensures
        x1 == x2 && z1 == z2,
{
    assert(x1 == x2 && z1 == z2) by (nonlinear_arith)
        requires
            0 < cols,
            0 <= x1 < cols,
            0 <= x2 < cols,
            z1 * cols + x1 == z2 * cols + x2,
    {}
}

impl Terrain {
    /// Sculpts the surface around the cursor for one frame: every sample
    /// strictly inside the brush radius moves toward the sign of `raise`
    /// under the falloff (clamped at the height bound), every sample at or
    /// beyond the radius is untouched, and the normals of the affected
    /// neighborhood are recomputed. Only the brush's bounding box of cells
    /// is visited.
    #[verifier::rlimit(100)]
    pub fn shape_terrain(&mut self, dt: i64, raise: bool)
        requires
            old(self).wf(),
            0 <= dt <= SCULPT_DT_LIMIT,
            old(self).cursor is Some,
        ensures
            final(self).cols == old(self).cols,
            final(self).rows == old(self).rows,
            final(self).cell == old(self).cell,
            final(self).origin_x == old(self).origin_x,
            final(self).origin_z == old(self).origin_z,
            final(self).brush == old(self).brush,
            final(self).cursor == old(self).cursor,
            final(self).heights@.len() == old(self).heights@.len(),
            forall|x: int, z: int|
                0 <= x < old(self).cols && 0 <= z < old(self).rows
                    ==> final(self).heights@[#[trigger] grid_idx(old(self).cols as int, x, z)]
                    == old(self).spec_sculpt_cell(x, z, spec_brush_base(dt as int), raise),
            final(self).wf(),
    {
        let c = self.cursor.unwrap();
        proof {
            lemma_abs_mul_bound(BRUSH_RATE as int, dt as int, BRUSH_RATE as int, SCULPT_DT_LIMIT as int);
            lemma_tdiv_bound(BRUSH_RATE as int * dt as int, SCALE as int, 200_000);
            lemma_div_pos_is_pos(BRUSH_RATE as int * dt as int, SCALE as int);
        }
        let base = tdiv(BRUSH_RATE * dt, SCALE);
        let r = self.brush.size;
        let cols_m1 = (self.cols as i64) - 1;
        let rows_m1 = (self.rows as i64) - 1;
        let qx0 = tdiv(c.x - r - self.origin_x, self.cell);
        let qx1 = tdiv(c.x + r - self.origin_x, self.cell);
        let qz0 = tdiv(c.y - r - self.origin_z, self.cell);
        let qz1 = tdiv(c.y + r - self.origin_z, self.cell);
        proof {
            crate::fixed::lemma_tdiv_monotone(
                c.x - r - self.origin_x,
                c.x + r - self.origin_x,
                self.cell as int,
            );
            crate::fixed::lemma_tdiv_monotone(
                c.y - r - self.origin_z,
                c.y + r - self.origin_z,
                self.cell as int,
            );
        }
        let ix0 = clamp_i64(qx0 - 1, 0, cols_m1) as usize;
        let ix1 = clamp_i64(qx1 + 1, 0, cols_m1) as usize;
        let iz0 = clamp_i64(qz0 - 1, 0, rows_m1) as usize;
        let iz1 = clamp_i64(qz1 + 1, 0, rows_m1) as usize;
        let ghost base_g = spec_brush_base(dt as int);
        let ghost orig = *self;
        let mut z = iz0;
        while z <= iz1
            invariant
                orig.wf(),
                orig == (Terrain { heights: orig.heights, normals: orig.normals, ..*self }),
                self.normals@ == orig.normals@,
                self.heights@.len() == orig.heights@.len(),
                orig.cursor == Some(c),
                base as int == base_g,
                0 <= base <= 200_000,
                r == orig.brush.size,
                iz0 <= z,
                ix0 <= ix1 < orig.cols,
                iz0 <= iz1 < orig.rows,
                z <= iz1 + 1,
                forall|xx: int, zz: int|
                    0 <= xx < orig.cols && 0 <= zz < orig.rows && ix0 <= xx <= ix1 && iz0 <= zz
                        < z ==> self.heights@[#[trigger] grid_idx(orig.cols as int, xx, zz)]
                        == orig.spec_sculpt_cell(xx, zz, base_g, raise),
                forall|xx: int, zz: int|
                    0 <= xx < orig.cols && 0 <= zz < orig.rows && !(ix0 <= xx <= ix1 && iz0 <= zz
                        < z) ==> self.heights@[#[trigger] grid_idx(orig.cols as int, xx, zz)]
                        == orig.heights@[grid_idx(orig.cols as int, xx, zz)],
            decreases iz1 + 1 - z,
        {
            let mut x = ix0;
            while x <= ix1
                invariant
                    orig.wf(),
                    orig == (Terrain { heights: orig.heights, normals: orig.normals, ..*self }),
                    self.normals@ == orig.normals@,
                    self.heights@.len() == orig.heights@.len(),
                    orig.cursor == Some(c),
                    base as int == base_g,
                    0 <= base <= 200_000,
                    r == orig.brush.size,
                    ix0 <= x,
                    x <= ix1 + 1,
                    ix0 <= ix1 < orig.cols,
                    iz0 <= z <= iz1 < orig.rows,
                    forall|xx: int, zz: int|
                        0 <= xx < orig.cols && 0 <= zz < orig.rows && ix0 <= xx <= ix1 && iz0 <= zz
                            < z ==> self.heights@[#[trigger] grid_idx(orig.cols as int, xx, zz)]
                            == orig.spec_sculpt_cell(xx, zz, base_g, raise),
                    forall|xx: int|
                        ix0 <= xx < x ==> self.heights@[#[trigger] grid_idx(
                            orig.cols as int,
                            xx,
                            z as int,
                        )] == orig.spec_sculpt_cell(xx, z as int, base_g, raise),
                    forall|xx: int, zz: int|
                        0 <= xx < orig.cols && 0 <= zz < orig.rows && !(ix0 <= xx <= ix1 && iz0
                            <= zz < z) && !(ix0 <= xx < x && zz == z)
                            ==> self.heights@[#[trigger] grid_idx(orig.cols as int, xx, zz)]
                            == orig.heights@[grid_idx(orig.cols as int, xx, zz)],
                decreases ix1 + 1 - x,
            {
                proof {
                    lemma_grid_idx_bounds(orig.cols as int, orig.rows as int, x as int, z as int);
                    lemma_extent_bounds(orig.cols as int, orig.cell as int);
                    lemma_extent_bounds(orig.rows as int, orig.cell as int);
                    assert(0 <= (x as int) * (orig.cell as int) <= 20_000_000
                        && 0 <= (z as int) * (orig.cell as int) <= 20_000_000) by (nonlinear_arith)
                        requires
                            0 <= x < orig.cols <= GRID_MAX,
                            0 <= z < orig.rows <= GRID_MAX,
                            0 < orig.cell <= CELL_MAX,
                    {}
                    assert(0 <= (z as int) * (orig.cols as int) <= GRID_MAX * GRID_MAX)
                        by (nonlinear_arith)
                        requires
                            z < GRID_MAX,
                            0 < orig.cols <= GRID_MAX,
                    {}
                    lemma_abs_mul_bound(
                        (c.x - (orig.origin_x + (x as i64) * orig.cell)) as int,
                        (c.x - (orig.origin_x + (x as i64) * orig.cell)) as int,
                        300_000_000,
                        300_000_000,
                    );
                    lemma_abs_mul_bound(
                        (c.y - (orig.origin_z + (z as i64) * orig.cell)) as int,
                        (c.y - (orig.origin_z + (z as i64) * orig.cell)) as int,
                        300_000_000,
                        300_000_000,
                    );
                }
                let px = self.origin_x + (x as i64) * self.cell;
                let pz = self.origin_z + (z as i64) * self.cell;
                let dxw = c.x - px;
                let dzw = c.y - pz;
                proof {
                    crate::vec3::lemma_square_nonneg(dxw as int);
                    crate::vec3::lemma_square_nonneg(dzw as int);
                }
                let d2 = dxw * dxw + dzw * dzw;
                let del = sculpt_delta(base, d2, r);
                let idx = z * self.cols + x;
                let h = self.heights[idx];
                let nh = if raise {
                    clamp_i64(h + del, -HEIGHT_LIMIT, HEIGHT_LIMIT)
                } else {
                    clamp_i64(h - del, -HEIGHT_LIMIT, HEIGHT_LIMIT)
                };
                self.heights.set(idx, nh);
                proof {
                    reveal(Terrain::spec_sculpt_cell);
                    assert(self.heights@[grid_idx(orig.cols as int, x as int, z as int)]
                        == orig.spec_sculpt_cell(x as int, z as int, base_g, raise));
                    assert forall|xx: int, zz: int|
                        0 <= xx < orig.cols && 0 <= zz < orig.rows && !(xx == x as int && zz
                            == z as int) implies 0 <= #[trigger] grid_idx(orig.cols as int, xx, zz)
                        < orig.heights@.len() && grid_idx(orig.cols as int, xx, zz) != idx as int by {
                        lemma_grid_idx_bounds(orig.cols as int, orig.rows as int, xx, zz);
                        if grid_idx(orig.cols as int, xx, zz) == idx as int {
                            lemma_grid_idx_injective(
                                orig.cols as int,
                                xx,
                                zz,
                                x as int,
                                z as int,
                            );
                        }
                    }
                }
                x = x + 1;
            }
            z = z + 1;
        }
        let ghost mid = *self;
        proof {
            assert forall|x: int, z: int|
                0 <= x < orig.cols && 0 <= z < orig.rows implies mid.heights@[#[trigger] grid_idx(
                orig.cols as int,
                x,
                z,
            )] == orig.spec_sculpt_cell(x, z, base_g, raise) by {
                lemma_grid_idx_bounds(orig.cols as int, orig.rows as int, x, z);
                if ix0 <= x <= ix1 && iz0 <= z <= iz1 {
                    assert(self.heights@[grid_idx(orig.cols as int, x, z)]
                        == orig.spec_sculpt_cell(x, z, base_g, raise));
                } else {
                    reveal(Terrain::spec_sculpt_cell);
                    assert(self.heights@[grid_idx(orig.cols as int, x, z)]
                        == orig.heights@[grid_idx(orig.cols as int, x, z)]);
                    if x < ix0 || x > ix1 {
                        assert(x <= qx0 - 2 || x >= qx1 + 2);
                        lemma_outside_axis_far(
                            orig.origin_x as int,
                            orig.cell as int,
                            c.x as int,
                            r as int,
                            x,
                        );
                        crate::vec3::lemma_square_nonneg(c.y - (orig.origin_z + z * orig.cell));
                    } else {
                        assert(z <= qz0 - 2 || z >= qz1 + 2);
                        lemma_outside_axis_far(
                            orig.origin_z as int,
                            orig.cell as int,
                            c.y as int,
                            r as int,
                            z,
                        );
                        crate::vec3::lemma_square_nonneg(c.x - (orig.origin_x + x * orig.cell));
                    }
                    assert(orig.spec_cell_d2(c.x as int, c.y as int, x, z)
                        > (r as int) * (r as int));
                    assert(spec_brush_delta(
                        base_g,
                        orig.spec_cell_d2(c.x as int, c.y as int, x, z),
                        r as int,
                    ) == 0) by {
                        reveal(spec_brush_delta);
                    }
                }
            }
            assert forall|x: int, z: int|
                0 <= x < orig.cols && 0 <= z < orig.rows && !(ix0 <= x <= ix1 && iz0 <= z <= iz1)
                implies mid.heights@[#[trigger] grid_idx(orig.cols as int, x, z)]
                == orig.heights@[grid_idx(orig.cols as int, x, z)] by {
                assert(self.heights@[grid_idx(orig.cols as int, x, z)] == orig.heights@[grid_idx(
                    orig.cols as int,
                    x,
                    z,
                )]);
            }
            assert forall|k: int| 0 <= k < mid.heights@.len() implies -HEIGHT_LIMIT
                <= #[trigger] mid.heights@[k] <= HEIGHT_LIMIT by {
                let cols = orig.cols as int;
                let rows = orig.rows as int;
                let zc = k / cols;
                let xc = k % cols;
                lemma_fundamental_div_mod(k, cols);
                lemma_mod_bound(k, cols);
                assert(0 <= zc < rows) by (nonlinear_arith)
                    requires
                        k == cols * zc + xc,
                        0 <= xc < cols,
                        0 <= k < rows * cols,
                        0 < cols,
                        0 < rows,
                {}
                assert(grid_idx(cols, xc, zc) == k) by (nonlinear_arith)
                    requires
                        k == cols * zc + xc,
                        grid_idx(cols, xc, zc) == zc * cols + xc,
                {}
                assert(mid.heights@[grid_idx(cols, xc, zc)] == orig.spec_sculpt_cell(
                    xc,
                    zc,
                    base_g,
                    raise,
                ));
                assert(-HEIGHT_LIMIT <= orig.spec_sculpt_cell(xc, zc, base_g, raise)
                    <= HEIGHT_LIMIT) by {
                    reveal(Terrain::spec_sculpt_cell);
                }
            }
            assert(mid.heights_wf());
        }
        let nx0 = if ix0 > 0 { ix0 - 1 } else { 0 };
        let nx1 = if ix1 + 1 < self.cols { ix1 + 1 } else { self.cols - 1 };
        let nz0 = if iz0 > 0 { iz0 - 1 } else { 0 };
        let nz1 = if iz1 + 1 < self.rows { iz1 + 1 } else { self.rows - 1 };
        let mut z = nz0;
        while z <= nz1
            invariant
                orig.wf(),
                mid == (Terrain { normals: mid.normals, ..*self }),
                mid.normals@ == orig.normals@,
                mid.cols == orig.cols,
                mid.rows == orig.rows,
                mid.cell == orig.cell,
                mid.dims_wf(),
                mid.heights_wf(),
                self.normals@.len() == orig.normals@.len(),
                nz0 <= z <= nz1 + 1,
                nx0 <= nx1 < mid.cols,
                nz0 <= nz1 < mid.rows,
                forall|xx: int, zz: int|
                    0 <= xx < mid.cols && 0 <= zz < mid.rows && nx0 <= xx <= nx1 && nz0 <= zz
                        < z ==> self.normals@[#[trigger] grid_idx(mid.cols as int, xx, zz)]
                        == spec_normal(
                        mid.heights@,
                        mid.cols as int,
                        mid.rows as int,
                        mid.cell as int,
                        xx,
                        zz,
                    ),
                forall|xx: int, zz: int|
                    0 <= xx < mid.cols && 0 <= zz < mid.rows && !(nx0 <= xx <= nx1 && nz0 <= zz
                        < z) ==> self.normals@[#[trigger] grid_idx(mid.cols as int, xx, zz)]
                        == orig.normals@[grid_idx(mid.cols as int, xx, zz)],
            decreases nz1 + 1 - z,
        {
            let mut x = nx0;
            while x <= nx1
                invariant
                    orig.wf(),
                    mid == (Terrain { normals: mid.normals, ..*self }),
                    mid.normals@ == orig.normals@,
                    mid.cols == orig.cols,
                    mid.rows == orig.rows,
                    mid.cell == orig.cell,
                    mid.dims_wf(),
                    mid.heights_wf(),
                    self.normals@.len() == orig.normals@.len(),
                    nx0 <= x <= nx1 + 1,
                    nx0 <= nx1 < mid.cols,
                    nz0 <= z <= nz1 < mid.rows,
                    forall|xx: int, zz: int|
                        0 <= xx < mid.cols && 0 <= zz < mid.rows && nx0 <= xx <= nx1 && nz0 <= zz
                            < z ==> self.normals@[#[trigger] grid_idx(mid.cols as int, xx, zz)]
                            == spec_normal(
                            mid.heights@,
                            mid.cols as int,
                            mid.rows as int,
                            mid.cell as int,
                            xx,
                            zz,
                        ),
                    forall|xx: int|
                        nx0 <= xx < x ==> self.normals@[#[trigger] grid_idx(
                            mid.cols as int,
                            xx,
                            z as int,
                        )] == spec_normal(
                            mid.heights@,
                            mid.cols as int,
                            mid.rows as int,
                            mid.cell as int,
                            xx,
                            z as int,
                        ),
                    forall|xx: int, zz: int|
                        0 <= xx < mid.cols && 0 <= zz < mid.rows && !(nx0 <= xx <= nx1 && nz0
                            <= zz < z) && !(nx0 <= xx < x && zz == z)
                            ==> self.normals@[#[trigger] grid_idx(mid.cols as int, xx, zz)]
                            == orig.normals@[grid_idx(mid.cols as int, xx, zz)],
                decreases nx1 + 1 - x,
            {
                proof {
                    lemma_grid_idx_bounds(mid.cols as int, mid.rows as int, x as int, z as int);
                    assert(0 <= (z as int) * (mid.cols as int) <= GRID_MAX * GRID_MAX)
                        by (nonlinear_arith)
                        requires
                            z < GRID_MAX,
                            0 < mid.cols <= GRID_MAX,
                    {}
                }
                let n = self.normal_at(x, z);
                let idx = z * self.cols + x;
                self.normals.set(idx, n);
                proof {
                    assert forall|xx: int, zz: int|
                        0 <= xx < mid.cols && 0 <= zz < mid.rows && !(xx == x as int && zz
                            == z as int) implies 0 <= #[trigger] grid_idx(mid.cols as int, xx, zz)
                        < self.normals@.len() && grid_idx(mid.cols as int, xx, zz) != idx as int by {
                        lemma_grid_idx_bounds(mid.cols as int, mid.rows as int, xx, zz);
                        if grid_idx(mid.cols as int, xx, zz) == idx as int {
                            lemma_grid_idx_injective(mid.cols as int, xx, zz, x as int, z as int);
                        }
                    }
                }
                x = x + 1;
            }
            z = z + 1;
        }
        proof {
            assert forall|x: int, z: int|
                0 <= x < mid.cols && 0 <= z < mid.rows implies self.normals@[#[trigger] grid_idx(
                mid.cols as int,
                x,
                z,
            )] == spec_normal(
                mid.heights@,
                mid.cols as int,
                mid.rows as int,
                mid.cell as int,
                x,
                z,
            ) by {
                reveal(spec_normal);
                lemma_grid_idx_bounds(mid.cols as int, mid.rows as int, x, z);
                if !(nx0 <= x <= nx1 && nz0 <= z <= nz1) {
                    let xm = if x > 0 { x - 1 } else { x };
                    let xp = if x + 1 < mid.cols { x + 1 } else { x };
                    let zm = if z > 0 { z - 1 } else { z };
                    let zp = if z + 1 < mid.rows { z + 1 } else { z };
                    lemma_grid_idx_bounds(mid.cols as int, mid.rows as int, xm, z);
                    lemma_grid_idx_bounds(mid.cols as int, mid.rows as int, xp, z);
                    lemma_grid_idx_bounds(mid.cols as int, mid.rows as int, x, zm);
                    lemma_grid_idx_bounds(mid.cols as int, mid.rows as int, x, zp);
                    assert(mid.heights@[grid_idx(orig.cols as int, xm, z)] == orig.heights@[
                        grid_idx(orig.cols as int, xm, z)]);
                    assert(mid.heights@[grid_idx(orig.cols as int, xp, z)] == orig.heights@[
                        grid_idx(orig.cols as int, xp, z)]);
                    assert(mid.heights@[grid_idx(orig.cols as int, x, zm)] == orig.heights@[
                        grid_idx(orig.cols as int, x, zm)]);
                    assert(mid.heights@[grid_idx(orig.cols as int, x, zp)] == orig.heights@[
                        grid_idx(orig.cols as int, x, zp)]);
                    assert(self.normals@[grid_idx(mid.cols as int, x, z)] == orig.normals@[
                        grid_idx(mid.cols as int, x, z)]);
                }
            }
        }
    }
}

} // verus!

verus! {

impl Terrain {
    /// Casting is deterministic: any two results of the intersection
    /// contract for the same ray over unchanged terrain are the same point
    /// exactly, so intersecting twice is idempotent.
    pub proof fn lemma_intersect_deterministic(
        self,
        ray: Ray,
        r1: Option<Vec3Fp>,
        r2: Option<Vec3Fp>,
    )
        requires
            r1 == self.spec_intersect(ray),
            r2 == self.spec_intersect(ray),
        ensures
            r1 == r2,
    {
    }

    /// Brush locality and direction: a sample at or beyond the brush
    /// radius from the cursor is left exactly as it was, while a sample
    /// strictly inside the radius is strictly raised (or, lowered) by any
    /// sculpting frame with nonzero elapsed time — unless that sample
    /// already sits at the height bound the brush clamps to.
    pub proof fn lemma_brush_locality(self, dt: int, raise: bool, x: int, z: int)
        requires
            self.wf(),
            self.cursor is Some,
            0 <= dt <= SCULPT_DT_LIMIT as int,
            0 <= x < self.cols,
            0 <= z < self.rows,
        ensures
            self.spec_cell_d2(self.cursor.unwrap().x as int, self.cursor.unwrap().y as int, x, z)
                >= self.brush.size * self.brush.size ==> self.spec_sculpt_cell(
                x,
                z,
                spec_brush_base(dt),
                raise,
            ) == self.heights@[grid_idx(self.cols as int, x, z)],
            ({
                let d2 = self.spec_cell_d2(
                    self.cursor.unwrap().x as int,
                    self.cursor.unwrap().y as int,
                    x,
                    z,
                );
                let h = self.heights@[grid_idx(self.cols as int, x, z)];
                &&& (d2 < self.brush.size * self.brush.size && dt >= 1 && raise && h
                    < HEIGHT_LIMIT) ==> self.spec_sculpt_cell(x, z, spec_brush_base(dt), raise) > h
                &&& (d2 < self.brush.size * self.brush.size && dt >= 1 && !raise && h
                    > -HEIGHT_LIMIT) ==> self.spec_sculpt_cell(x, z, spec_brush_base(dt), raise)
                    < h
            }),
    {
        reveal(Terrain::spec_sculpt_cell);
        reveal(spec_brush_delta);
        lemma_grid_idx_bounds(self.cols as int, self.rows as int, x, z);
        let c = self.cursor.unwrap();
        let d2 = self.spec_cell_d2(c.x as int, c.y as int, x, z);
        let r = self.brush.size as int;
        let h = self.heights@[grid_idx(self.cols as int, x, z)];
        let base = spec_brush_base(dt);
        crate::vec3::lemma_square_nonneg(c.x - (self.origin_x + x * self.cell));
        crate::vec3::lemma_square_nonneg(c.y - (self.origin_z + z * self.cell));
        lemma_tdiv_bound(BRUSH_RATE * dt, SCALE as int, 200_000);
        lemma_abs_mul_bound(BRUSH_RATE as int, dt, BRUSH_RATE as int, SCULPT_DT_LIMIT as int);
        lemma_div_pos_is_pos(BRUSH_RATE * dt, SCALE as int);
        if dt >= 1 {
            assert(BRUSH_RATE * dt >= SCALE) by (nonlinear_arith)
                requires
                    dt >= 1,
            {}
            lemma_div_is_ordered(SCALE as int, BRUSH_RATE * dt, SCALE as int);
            lemma_div_by_self(SCALE as int);
            assert(base >= 1);
        }
        if d2 < r * r && dt >= 1 {
            lemma_brush_delta_bounds(base, d2, r);
            assert(spec_brush_delta(base, d2, r) >= 1);
        }
    }
}

} // verus!

verus! {

/// Worst-case width of a bisection bracket after `k` halvings.
pub open spec fn spec_halvings(w: int, k: nat) -> int
    decreases k,
{
    if k == 0 {
        w
    } else {
        spec_halvings((w + 1) / 2, (k - 1) as nat)
    }
}

proof fn lemma_halvings_monotone(w1: int, w2: int, k: nat)
    requires
        0 <= w1 <= w2,
    ensures
        0 <= spec_halvings(w1, k) <= spec_halvings(w2, k),
    decreases k,
{
    if k > 0 {
        lemma_div_is_ordered(w1 + 1, w2 + 1, 2);
        lemma_div_pos_is_pos(w1 + 1, 2);
        lemma_halvings_monotone((w1 + 1) / 2, (w2 + 1) / 2, (k - 1) as nat);
    }
}

/// The integer midpoint lies between its bounds, and each half-bracket is
/// at most half the width, rounded up.
proof fn lemma_midpoint_between(lo: int, hi: int)
    requires
        0 <= lo <= hi,
    ensures
        lo <= (lo + hi) / 2 <= hi,
        hi - (lo + hi) / 2 <= (hi - lo + 1) / 2,
        (lo + hi) / 2 - lo <= (hi - lo + 1) / 2,
{
    let q = (lo + hi) / 2;
    lemma_fundamental_div_mod(lo + hi, 2);
    lemma_mod_bound(lo + hi, 2);
    lemma_div_multiples_vanish(hi - q, 2);
    lemma_div_is_ordered(2 * (hi - q), hi - lo + 1, 2);
    lemma_div_multiples_vanish(q - lo, 2);
    lemma_div_is_ordered(2 * (q - lo), hi - lo + 1, 2);
}

impl Terrain {
    /// Bisection keeps a bracket whose ends stay on opposite sides of the
    /// surface: the refined result is the midpoint of a sub-bracket of
    /// `[lo, hi]`, no wider than `k` halvings leave, with the `lo` side
    /// keeping `above_lo` and the `hi` side its opposite.
    proof fn lemma_refine_bracket(self, ray: Ray, lo: int, a0: bool, hi: int, k: nat) -> (r: (
        int,
        int,
    ))
        requires
            0 <= lo <= hi,
            self.spec_above(ray, lo) == a0,
            self.spec_above(ray, hi) != a0,
        ensures
            lo <= r.0 <= r.1 <= hi,
            r.1 - r.0 <= spec_halvings(hi - lo, k),
            self.spec_above(ray, r.0) == a0,
            self.spec_above(ray, r.1) != a0,
            self.spec_refine(ray, lo, a0, hi, k) == ray.spec_at((r.0 + r.1) / 2),
        decreases k,
    {
        if k == 0 {
            (lo, hi)
        } else {
            let mid = (lo + hi) / 2;
            lemma_midpoint_between(lo, hi);
            if self.spec_above(ray, mid) == a0 {
                let r = self.lemma_refine_bracket(ray, mid, a0, hi, (k - 1) as nat);
                lemma_halvings_monotone(hi - mid, (hi - lo + 1) / 2, (k - 1) as nat);
                r
            } else {
                let r = self.lemma_refine_bracket(ray, lo, a0, mid, (k - 1) as nat);
                lemma_halvings_monotone(mid - lo, (hi - lo + 1) / 2, (k - 1) as nat);
                r
            }
        }
    }

    /// When the march reports a point, it found two consecutive
    /// in-footprint samples on opposite sides of the surface and refined
    /// between them.
    proof fn lemma_march_brackets(
        self,
        ray: Ray,
        i: nat,
        prev: Option<(i64, bool)>,
        p: Vec3Fp,
    ) -> (t0: int)
        requires
            self.dims_wf(),
            self.spec_march(ray, i, prev) == Some(p),
            match prev {
                Some(pr) => {
                    &&& i >= 1
                    &&& pr.0 as int == (i - 1) * self.spec_march_step()
                    &&& self.spec_inside(
                        ray.spec_at(pr.0 as int).x as int,
                        ray.spec_at(pr.0 as int).z as int,
                    )
                    &&& pr.1 == self.spec_above(ray, pr.0 as int)
                },
                None => true,
            },
        ensures
            0 <= t0,
            t0 + self.spec_march_step() <= 32_768_000,
            self.spec_inside(ray.spec_at(t0).x as int, ray.spec_at(t0).z as int),
            self.spec_inside(
                ray.spec_at(t0 + self.spec_march_step()).x as int,
                ray.spec_at(t0 + self.spec_march_step()).z as int,
            ),
            self.spec_above(ray, t0) != self.spec_above(ray, t0 + self.spec_march_step()),
            p == self.spec_refine(
                ray,
                t0,
                self.spec_above(ray, t0),
                t0 + self.spec_march_step(),
                REFINE_STEPS as nat,
            ),
        decreases MAX_MARCH_STEPS - i,
    {
        let step = self.spec_march_step();
        if i >= MAX_MARCH_STEPS {
            assert(false);
            0
        } else {
            let t = i * step;
            assert(0 <= t <= 4096 * 8000 && t == (t as i64) as int) by (nonlinear_arith)
                requires
                    0 <= i < 4096,
                    0 < step <= 8000,
                    t == i * step,
            {}
            let pt = ray.spec_at(t);
            if self.spec_inside(pt.x as int, pt.z as int) {
                let above = pt.y >= self.spec_sample(pt.x as int, pt.z as int);
                match prev {
                    Some(pr) => {
                        if pr.1 != above {
                            let t0 = pr.0 as int;
                            assert((i - 1) * step + step == i * step) by (nonlinear_arith) {}
                            assert(t0 + step == t);
                            t0
                        } else {
                            assert((i + 1) - 1 == i);
                            self.lemma_march_brackets(
                                ray,
                                (i + 1) as nat,
                                Some((t as i64, above)),
                                p,
                            )
                        }
                    },
                    None => {
                        self.lemma_march_brackets(ray, (i + 1) as nat, Some((t as i64, above)), p)
                    },
                }
            } else {
                self.lemma_march_brackets(ray, (i + 1) as nat, None, p)
            }
        }
    }

    /// The geometry behind a reported intersection. Whenever the
    /// intersection contract yields a point, that point is the midpoint of
    /// a bracket `[r.0, r.1]` of ray parameters no wider than one
    /// sub-unit, whose two ends lie on opposite sides of the bilinearly
    /// sampled surface (`spec_above` compares the ray's height against the
    /// surface height under it) — so the surface is crossed within one
    /// thousandth of a world unit of ray travel from the reported point.
    /// The bracket in turn lies between two consecutive march samples
    /// `r.2` and `r.2 + step`, both over the footprint, that straddle the
    /// surface; the march returns the first such pair it meets.
    pub proof fn lemma_intersect_brackets_crossing(self, ray: Ray, p: Vec3Fp) -> (r: (
        int,
        int,
        int,
    ))
        requires
            self.dims_wf(),
            self.spec_intersect(ray) == Some(p),
        ensures
            0 <= r.2,
            r.2 + self.spec_march_step() <= 32_768_000,
            r.2 <= r.0 <= r.1 <= r.2 + self.spec_march_step(),
            r.1 - r.0 <= 1,
            self.spec_inside(ray.spec_at(r.2).x as int, ray.spec_at(r.2).z as int),
            self.spec_inside(
                ray.spec_at(r.2 + self.spec_march_step()).x as int,
                ray.spec_at(r.2 + self.spec_march_step()).z as int,
            ),
            self.spec_above(ray, r.2) != self.spec_above(ray, r.2 + self.spec_march_step()),
            self.spec_above(ray, r.0) != self.spec_above(ray, r.1),
            p == ray.spec_at((r.0 + r.1) / 2),
    {
        let step = self.spec_march_step();
        let t0 = self.lemma_march_brackets(ray, 0, None, p);
        let a0 = self.spec_above(ray, t0);
        let (tl, th) = self.lemma_refine_bracket(ray, t0, a0, t0 + step, REFINE_STEPS as nat);
        lemma_halvings_monotone(step, 8_000, REFINE_STEPS as nat);
        assert(spec_halvings(8_000, REFINE_STEPS as nat) == 1) by {
            reveal_with_fuel(spec_halvings, 26);
        }
        (tl, th, t0)
    }
}

} // verus!

verus! {

impl Terrain {
    /// A field holding one constant height samples to that height at every
    /// horizontal point: the bilinear blend of equal corners is exact.
    pub proof fn lemma_constant_field_sample(self, h: int, wx: int, wz: int)
        requires
            self.dims_wf(),
            self.heights@.len() == self.rows * self.cols,
            forall|k: int| 0 <= k < self.heights@.len() ==> #[trigger] self.heights@[k] == h,
        ensures
            self.spec_sample(wx, wz) == h,
    {
        lemma_extent_bounds(self.cols as int, self.cell as int);
        lemma_extent_bounds(self.rows as int, self.cell as int);
        let cell = self.cell as int;
        let cols = self.cols as int;
        let rows = self.rows as int;
        let cx = spec_clamp(wx, self.origin_x as int, self.spec_max_x());
        let cz = spec_clamp(wz, self.origin_z as int, self.spec_max_z());
        let dx = cx - self.origin_x;
        let dz = cz - self.origin_z;
        lemma_div_pos_is_pos(dx, cell);
        lemma_div_pos_is_pos(dz, cell);
        let ix = spec_axis_cell(dx, cell, cols);
        let iz = spec_axis_cell(dz, cell, rows);
        lemma_grid_idx_bounds(cols, rows, ix, iz);
        lemma_grid_idx_bounds(cols, rows, ix + 1, iz);
        lemma_grid_idx_bounds(cols, rows, ix, iz + 1);
        lemma_grid_idx_bounds(cols, rows, ix + 1, iz + 1);
        let fx = dx - ix * cell;
        let fz = dz - iz * cell;
        assert(h * (cell - fx) + h * fx == h * cell) by (nonlinear_arith) {}
        assert(h * (cell - fz) + h * fz == h * cell) by (nonlinear_arith) {}
        crate::fixed::lemma_tdiv_mul_cancel(h, cell);
    }

    /// Item of the flat-field accuracy check provable in closed form: over
    /// a field of one constant height, any point the intersection reports
    /// has that height to within one sub-unit (one thousandth of a world
    /// unit) below it. The horizontal-distance half of the check depends
    /// on the trigonometric approximation and stays with the tests.
    pub proof fn lemma_flat_field_hit_height(self, ray: Ray, p: Vec3Fp, h: int)
        requires
            self.dims_wf(),
            self.heights@.len() == self.rows * self.cols,
            forall|k: int| 0 <= k < self.heights@.len() ==> #[trigger] self.heights@[k] == h,
            ray.wf(),
            self.spec_intersect(ray) == Some(p),
        ensures
            h - 1 <= p.y <= h,
    {
        let r = self.lemma_intersect_brackets_crossing(ray, p);
        let tl = r.0;
        let th = r.1;
        let ptl = ray.spec_at(tl);
        let pth = ray.spec_at(th);
        self.lemma_constant_field_sample(h, ptl.x as int, ptl.z as int);
        self.lemma_constant_field_sample(h, pth.x as int, pth.z as int);
        assert(th == tl + 1);
        lemma_fundamental_div_mod(tl + th, 2);
        lemma_mod_bound(tl + th, 2);
        assert((tl + th) / 2 == tl);
        let n1 = ray.dir.y * tl;
        let n2 = ray.dir.y * th;
        assert(n2 == n1 + ray.dir.y && -33_000_000_000 <= n1 <= 33_000_000_000
            && -33_000_000_000 <= n2 <= 33_000_000_000) by (nonlinear_arith)
            requires
                th == tl + 1,
                0 <= tl <= 32_768_000,
                0 <= th <= 32_768_000,
                -SCALE <= ray.dir.y <= SCALE,
                n1 == ray.dir.y * tl,
                n2 == ray.dir.y * th,
        {}
        crate::fixed::lemma_tdiv_bound(n1, SCALE as int, 33_000_000);
        crate::fixed::lemma_tdiv_bound(n2, SCALE as int, 33_000_000);
        crate::fixed::lemma_tdiv_step(n1, SCALE as int);
        crate::fixed::lemma_tdiv_step(n1 - SCALE, SCALE as int);
        crate::fixed::lemma_tdiv_monotone(n2, n1 + SCALE, SCALE as int);
        crate::fixed::lemma_tdiv_monotone(n1 - SCALE, n2, SCALE as int);
        assert(pth.y - 1 <= ptl.y <= pth.y + 1);
        if self.spec_above(ray, tl) {
            assert(ptl.y >= h);
            assert(pth.y < h);
        } else {
            assert(ptl.y < h);
            assert(pth.y >= h);
        }
    }
}

} // verus!
