//! Grid-aligned DDA ray marching: walking a ray cell by cell through a
//! dense grid to the first occupied voxel.
//!
//! All arithmetic is exact. A ray's origin is a triple of rational
//! coordinates over one shared positive denominator, and its direction
//! an integer vector; the traversal only ever compares the parametric
//! boundary distances `tmax`, and those comparisons are invariant under
//! positive scaling of the direction, so integer directions lose no
//! generality. An axis with zero direction component never advances:
//! its `tmax` carries an explicit "never" sentinel (denominator 0)
//! rather than a hardware infinity.
//!
//! The sample point is nudged an infinitesimal distance along the ray
//! before the start cell is chosen, so an origin lying exactly on a
//! cell boundary starts in the cell ahead of it, never behind it. The
//! nudge shifts every axis's `tmax` by the same infinitesimal amount,
//! so it changes no comparison and is dropped from the distances
//! themselves.

use vstd::prelude::*;
use vstd::arithmetic::div_mod::lemma_fundamental_div_mod;
use vstd::arithmetic::div_mod::lemma_fundamental_div_mod_converse_div;
use vstd::arithmetic::div_mod::lemma_fundamental_div_mod_converse_mod;
use vstd::arithmetic::div_mod::lemma_mod_bound;
use crate::grid::DenseGrid;
use crate::grid::grid_cells;
use crate::grid::grid_dims;
use crate::grid::in_dims;

verus! {

/// A ray in the model's local object space, where one unit is one grid
/// cell.
///
/// The origin is (`ox` / `den`, `oy` / `den`, `oz` / `den`); `den` is a
/// shared positive denominator, so any fixed-point or rational origin
/// can be expressed exactly. The direction is the integer vector
/// (`dx`, `dy`, `dz`); only its orientation matters, since scaling a
/// direction by a positive factor leaves the traversal unchanged.
#[derive(Clone, Copy, Debug, PartialEq, Eq, Structural)]
pub struct Ray {
    pub ox: i64,
    pub oy: i64,
    pub oz: i64,
    pub den: i64,
    pub dx: i64,
    pub dy: i64,
    pub dz: i64,
}

/// The outcome of one march: the material id of the first occupied
/// cell the ray meets, or a miss. A miss is an ordinary value, never a
/// fault.
#[derive(Clone, Copy, Debug, PartialEq, Eq, Structural)]
pub enum MarchResult {
    Hit { material_id: u8 },
    Miss,
}

impl Ray {
    /// The denominator is positive and every component is small enough
    /// that the marcher's fixed-width arithmetic cannot overflow.
    pub open spec fn wf(self) -> bool {
        &&& 1 <= self.den <= 0x10_0000
        &&& -0x100_0000_0000 <= self.ox <= 0x100_0000_0000
        &&& -0x100_0000_0000 <= self.oy <= 0x100_0000_0000
        &&& -0x100_0000_0000 <= self.oz <= 0x100_0000_0000
        &&& -0x10_0000 <= self.dx <= 0x10_0000
        &&& -0x10_0000 <= self.dy <= 0x10_0000
        &&& -0x10_0000 <= self.dz <= 0x10_0000
    }
}

/// Runtime form of `Ray::wf`, for callers outside verified code.
pub fn ray_wf_check(r: &Ray) -> (b: bool)
    ensures
        b == r.wf(),
{
    1 <= r.den && r.den <= 0x10_0000 && -0x100_0000_0000 <= r.ox && r.ox <= 0x100_0000_0000
        && -0x100_0000_0000 <= r.oy && r.oy <= 0x100_0000_0000 && -0x100_0000_0000 <= r.oz
        && r.oz <= 0x100_0000_0000 && -0x10_0000 <= r.dx && r.dx <= 0x10_0000 && -0x10_0000
        <= r.dy && r.dy <= 0x10_0000 && -0x10_0000 <= r.dz && r.dz <= 0x10_0000
}

/// One axis of the traversal state: the current cell coordinate, the
/// step direction, and the parametric distance to the next cell
/// boundary on this axis as the fraction `tn / td`. A denominator
/// `td == 0` is the "never" sentinel of an axis that does not advance.
/// Each advance on the axis adds one `tdelta`, which over the common
/// denominator `td` is a numerator increment by the ray's `den`.
pub struct Axis {
    pub pos: int,
    pub step: int,
    pub tn: int,
    pub td: int,
}

/// The whole traversal state: the three axes and the numerator
/// increment that one `tdelta` adds.
pub struct MarchState {
    pub x: Axis,
    pub y: Axis,
    pub z: Axis,
    pub den: int,
}

/// The cell the nudged sample point falls in on one axis: the floor of
/// the coordinate, except that an exactly integer coordinate with a
/// negative direction starts one cell lower.
pub open spec fn start_cell(o: int, den: int, d: int) -> int {
    let f = o / den;
    if d < 0 && f * den == o {
        f - 1
    } else {
        f
    }
}

/// The initial state of one axis: its start cell, its step (the sign
/// of the direction component), and the parametric distance from the
/// origin to the first cell boundary in step direction, over the
/// denominator `den * |d|`.
pub open spec fn init_axis(o: int, den: int, d: int) -> Axis {
    let p = start_cell(o, den, d);
    if d > 0 {
        Axis { pos: p, step: 1, tn: (p + 1) * den - o, td: den * d }
    } else if d < 0 {
        Axis { pos: p, step: -1, tn: o - p * den, td: den * (-d) }
    } else {
        Axis { pos: p, step: 0, tn: 0, td: 0 }
    }
}

/// The initial traversal state of a ray.
pub open spec fn init_state(r: Ray) -> MarchState {
    MarchState {
        x: init_axis(r.ox as int, r.den as int, r.dx as int),
        y: init_axis(r.oy as int, r.den as int, r.dy as int),
        z: init_axis(r.oz as int, r.den as int, r.dz as int),
        den: r.den as int,
    }
}

/// `tn_a / td_a <= tn_b / td_b` over nonnegative fractions, where a
/// zero denominator stands for "never", larger than every finite
/// distance.
pub open spec fn tmax_le_vals(tn_a: int, td_a: int, tn_b: int, td_b: int) -> bool {
    if td_a == 0 {
        td_b == 0
    } else if td_b == 0 {
        true
    } else {
        tn_a * td_b <= tn_b * td_a
    }
}

/// `a`'s next boundary is at most as far along the ray as `b`'s.
pub open spec fn tmax_le(a: Axis, b: Axis) -> bool {
    tmax_le_vals(a.tn, a.td, b.tn, b.td)
}

/// Some axis has a finite boundary distance left to advance through.
pub open spec fn can_advance(s: MarchState) -> bool {
    s.x.td != 0 || s.y.td != 0 || s.z.td != 0
}

/// One axis after one advance: the cell moves one step and the next
/// boundary moves one `tdelta` further.
pub open spec fn advanced_axis(a: Axis, den: int) -> Axis {
    Axis { pos: a.pos + a.step, step: a.step, tn: a.tn + den, td: a.td }
}

/// The state after advancing the axis with the smallest `tmax`, ties
/// broken by the fixed priority x, then y, then z; an axis with the
/// "never" sentinel is never chosen.
pub open spec fn advanced(s: MarchState) -> MarchState {
    if s.x.td != 0 && tmax_le(s.x, s.y) && tmax_le(s.x, s.z) {
        MarchState { x: advanced_axis(s.x, s.den), ..s }
    } else if s.y.td != 0 && tmax_le(s.y, s.z) {
        MarchState { y: advanced_axis(s.y, s.den), ..s }
    } else {
        MarchState { z: advanced_axis(s.z, s.den), ..s }
    }
}

/// Sum of the three grid dimensions: the step budget of one march.
pub open spec fn dim_sum(dims: (int, int, int)) -> int {
    dims.0 + dims.1 + dims.2
}

/// Enough recursion budget for any march over a grid of the given
/// dimensions: one more than the step budget.
pub open spec fn march_fuel(dims: (int, int, int)) -> nat {
    if dim_sum(dims) >= 0 {
        (dim_sum(dims) + 1) as nat
    } else {
        1
    }
}

/// The march itself, one cell per recursion step: before sampling,
/// the current cell is checked against the grid bounds on all three
/// axes — out of range is a miss; an occupied cell is a hit; otherwise
/// the axis with the smallest `tmax` advances. A state in which no
/// axis can advance (a zero direction vector) is a miss. The fuel only
/// bounds the recursion; `march_steps` supplies one unit more fuel
/// than its proven step bound, so the exhausted case is never taken.
pub open spec fn spec_march(
    cells: Map<(int, int, int), u8>,
    dims: (int, int, int),
    s: MarchState,
    fuel: nat,
) -> MarchResult
    decreases fuel,
{
    if fuel == 0 {
        MarchResult::Miss
    } else if !in_dims(dims, (s.x.pos, s.y.pos, s.z.pos)) {
        MarchResult::Miss
    } else if cells[(s.x.pos, s.y.pos, s.z.pos)] != 0 {
        MarchResult::Hit { material_id: cells[(s.x.pos, s.y.pos, s.z.pos)] }
    } else if !can_advance(s) {
        MarchResult::Miss
    } else {
        spec_march(cells, dims, advanced(s), (fuel - 1) as nat)
    }
}

/// The number of cell advances the march performs before returning:
/// zero on the steps where `spec_march` misses or hits, one more for
/// each advance it takes.
pub open spec fn spec_march_steps(
    cells: Map<(int, int, int), u8>,
    dims: (int, int, int),
    s: MarchState,
    fuel: nat,
) -> nat
    decreases fuel,
{
    if fuel == 0 {
        0
    } else if !in_dims(dims, (s.x.pos, s.y.pos, s.z.pos)) {
        0
    } else if cells[(s.x.pos, s.y.pos, s.z.pos)] != 0 {
        0
    } else if !can_advance(s) {
        0
    } else {
        1 + spec_march_steps(cells, dims, advanced(s), (fuel - 1) as nat)
    }
}

/// Floor division with remainder by a positive divisor: returns
/// (quotient, remainder) with `o == q * den + r` and `0 <= r < den`.
fn floor_div_rem(o: i64, den: i64) -> (qr: (i64, i64))
    requires
        1 <= den <= 0x10_0000,
        -0x100_0000_0000 <= o <= 0x100_0000_0000,
    ensures
        qr.0 == (o as int) / (den as int),
        qr.1 == (o as int) % (den as int),
        o == qr.0 * den + qr.1,
        0 <= qr.1 < den,
        -0x100_0000_0001 <= qr.0 <= 0x100_0000_0000,
{
    if o >= 0 {
        let q = (o as u64) / (den as u64);
        let r = (o as u64) % (den as u64);
        proof {
            assert(o as int == (den as int) * ((o as int) / (den as int)) + (o as int) % (
            den as int)) by {
                lemma_fundamental_div_mod(o as int, den as int);
            }
            lemma_mod_bound(o as int, den as int);
            assert((den as int) * (q as int) == (q as int) * (den as int)) by (nonlinear_arith);
            assert((q as int) <= (q as int) * (den as int)) by (nonlinear_arith)
                requires
                    q as int >= 0,
                    den as int >= 1,
            ;
        }
        (q as i64, r as i64)
    } else {
        let a = (-o) as u64;
        let d = den as u64;
        let qc = (a + d - 1) / d;
        proof {
            assert((a + d - 1) as int == (d as int) * (((a + d - 1) as int) / (d as int)) + ((a
                + d - 1) as int) % (d as int)) by {
                lemma_fundamental_div_mod((a + d - 1) as int, d as int);
            }
            lemma_mod_bound((a + d - 1) as int, d as int);
            assert((d as int) * (qc as int) == (qc as int) * (d as int)) by (nonlinear_arith);
            assert((a as int) <= (qc as int) * (d as int) <= (a as int) + (d as int) - 1);
            assert((qc as int) <= (a as int)) by (nonlinear_arith)
                requires
                    (qc as int) * (d as int) <= (a as int) + (d as int) - 1,
                    d as int >= 1,
                    a as int >= 1,
                    qc as int >= 0,
            ;
        }
        let rc = qc * d - a;
        proof {
            assert((-(qc as int)) * (den as int) == -((qc as int) * (den as int)))
                by (nonlinear_arith);
            assert(o as int == (-(qc as int)) * (den as int) + (rc as int));
            lemma_fundamental_div_mod_converse_div(o as int, den as int, -(qc as int), rc as int);
            lemma_fundamental_div_mod_converse_mod(o as int, den as int, -(qc as int), rc as int);
        }
        (-(qc as i64), rc as i64)
    }
}

/// Computes the initial state of one axis, as (pos, step, tn, td).
fn init_axis_exec(o: i64, den: i64, d: i64) -> (a: (i128, i64, i128, i128))
    requires
        1 <= den <= 0x10_0000,
        -0x100_0000_0000 <= o <= 0x100_0000_0000,
        -0x10_0000 <= d <= 0x10_0000,
    ensures
        ({
            let ax = init_axis(o as int, den as int, d as int);
            a.0 == ax.pos && a.1 == ax.step && a.2 == ax.tn && a.3 == ax.td
        }),
        0 <= a.2 <= den,
        0 <= a.3 <= 0x100_0000_0000,
        a.3 == 0 <==> a.1 == 0,
        -0x100_0000_0002 <= a.0 <= 0x100_0000_0000,
{
    let (q, r) = floor_div_rem(o, den);
    if d > 0 {
        proof {
            assert(1 <= (den as int) * (d as int) <= 0x100_0000_0000) by (nonlinear_arith)
                requires
                    1 <= den <= 0x10_0000,
                    1 <= d <= 0x10_0000,
            ;
            assert(((q as int) + 1) * (den as int) - (o as int) == (den as int) - (r as int))
                by (nonlinear_arith)
                requires
                    o as int == (q as int) * (den as int) + (r as int),
            ;
        }
        let td = (den as i128) * (d as i128);
        (q as i128, 1, (den - r) as i128, td)
    } else if d < 0 {
        proof {
            assert(1 <= (den as int) * (-(d as int)) <= 0x100_0000_0000) by (nonlinear_arith)
                requires
                    1 <= den <= 0x10_0000,
                    -0x10_0000 <= d <= -1,
            ;
            assert((o as int) - ((q as int) - 1) * (den as int) == (r as int) + (den as int)
                && (o as int) - (q as int) * (den as int) == r as int) by (nonlinear_arith)
                requires
                    o as int == (q as int) * (den as int) + (r as int),
            ;
            if r == 0 {
                assert((q as int) * (den as int) == o as int);
            } else {
                assert((q as int) * (den as int) != o as int);
            }
        }
        let td = (den as i128) * (-(d as i128));
        if r == 0 {
            ((q as i128) - 1, -1, den as i128, td)
        } else {
            (q as i128, -1, r as i128, td)
        }
    } else {
        (q as i128, 0, 0, 0)
    }
}

/// Compares two boundary distances `tn_a / td_a <= tn_b / td_b` by
/// cross-multiplication; a zero denominator is the "never" sentinel.
fn tmax_le_exec(tn_a: i128, td_a: i128, tn_b: i128, td_b: i128) -> (r: bool)
    requires
        0 <= tn_a <= 0x40_0000_0000_0000_0000_0000,
        0 <= td_a <= 0x100_0000_0000,
        0 <= tn_b <= 0x40_0000_0000_0000_0000_0000,
        0 <= td_b <= 0x100_0000_0000,
    ensures
        r == tmax_le_vals(tn_a as int, td_a as int, tn_b as int, td_b as int),
{
    if td_a == 0 {
        td_b == 0
    } else if td_b == 0 {
        true
    } else {
        proof {
            assert(0 <= (tn_a as int) * (td_b as int)
                <= 0x4000_0000_0000_0000_0000_0000_0000_0000 && 0 <= (tn_b as int) * (td_a as int)
                <= 0x4000_0000_0000_0000_0000_0000_0000_0000) by (nonlinear_arith)
                requires
                    0 <= tn_a as int <= 0x40_0000_0000_0000_0000_0000,
                    0 <= td_a as int <= 0x100_0000_0000,
                    0 <= tn_b as int <= 0x40_0000_0000_0000_0000_0000,
                    0 <= td_b as int <= 0x100_0000_0000,
            ;
        }
        tn_a * td_b <= tn_b * td_a
    }
}

/// Marches the ray through the grid and also counts how many cell
/// advances it took: exactly the advances of the spec walk, and never
/// more than the step budget of width + height + depth.
pub fn march_steps(grid: &DenseGrid, ray: &Ray) -> (res: (MarchResult, u128))
    requires
        ray.wf(),
    ensures
        res.0 == spec_march(
            grid_cells(*grid),
            grid_dims(*grid),
            init_state(*ray),
            march_fuel(grid_dims(*grid)),
        ),
        res.1 == spec_march_steps(
            grid_cells(*grid),
            grid_dims(*grid),
            init_state(*ray),
            march_fuel(grid_dims(*grid)),
        ),
        res.1 <= dim_sum(grid_dims(*grid)),
{
    let (gw, gh, gd) = grid.dims();
    let (px0, sx, tnx0, tdx) = init_axis_exec(ray.ox, ray.den, ray.dx);
    let (py0, sy, tny0, tdy) = init_axis_exec(ray.oy, ray.den, ray.dy);
    let (pz0, sz, tnz0, tdz) = init_axis_exec(ray.oz, ray.den, ray.dz);
    let mut px = px0;
    let mut py = py0;
    let mut pz = pz0;
    let mut tnx = tnx0;
    let mut tny = tny0;
    let mut tnz = tnz0;
    let den128 = ray.den as i128;
    let mut steps: u128 = 0;
    let ghost cells = grid_cells(*grid);
    let ghost dims = grid_dims(*grid);
    let ghost s0 = init_state(*ray);
    let ghost mut s = s0;
    let ghost mut kx: int = 0;
    let ghost mut ky: int = 0;
    let ghost mut kz: int = 0;
    loop
        invariant
            ray.wf(),
            dims == grid_dims(*grid),
            cells == grid_cells(*grid),
            s0 == init_state(*ray),
            gw as int == dims.0,
            gh as int == dims.1,
            gd as int == dims.2,
            px as int == s.x.pos,
            py as int == s.y.pos,
            pz as int == s.z.pos,
            sx as int == s.x.step,
            sy as int == s.y.step,
            sz as int == s.z.step,
            tnx as int == s.x.tn,
            tny as int == s.y.tn,
            tnz as int == s.z.tn,
            tdx as int == s.x.td,
            tdy as int == s.y.td,
            tdz as int == s.z.td,
            s.den == ray.den as int,
            den128 as int == ray.den as int,
            steps as int == kx + ky + kz,
            0 <= kx <= dims.0,
            0 <= ky <= dims.1,
            0 <= kz <= dims.2,
            s.x.step == s0.x.step && s.y.step == s0.y.step && s.z.step == s0.z.step,
            s.x.td == s0.x.td && s.y.td == s0.y.td && s.z.td == s0.z.td,
            s.x.step == 1 ==> s.x.pos == s0.x.pos + kx,
            s.x.step == -1 ==> s.x.pos == s0.x.pos - kx,
            s.x.step == 0 ==> kx == 0 && s.x.pos == s0.x.pos,
            s.y.step == 1 ==> s.y.pos == s0.y.pos + ky,
            s.y.step == -1 ==> s.y.pos == s0.y.pos - ky,
            s.y.step == 0 ==> ky == 0 && s.y.pos == s0.y.pos,
            s.z.step == 1 ==> s.z.pos == s0.z.pos + kz,
            s.z.step == -1 ==> s.z.pos == s0.z.pos - kz,
            s.z.step == 0 ==> kz == 0 && s.z.pos == s0.z.pos,
            steps as int > 0 ==> in_dims(dims, (s0.x.pos, s0.y.pos, s0.z.pos)),
            -0x100_0000_0002 <= s0.x.pos <= 0x100_0000_0000,
            -0x100_0000_0002 <= s0.y.pos <= 0x100_0000_0000,
            -0x100_0000_0002 <= s0.z.pos <= 0x100_0000_0000,
            0 <= s.x.tn <= (ray.den as int) * (kx + 1),
            0 <= s.y.tn <= (ray.den as int) * (ky + 1),
            0 <= s.z.tn <= (ray.den as int) * (kz + 1),
            0 <= s.x.td <= 0x100_0000_0000,
            0 <= s.y.td <= 0x100_0000_0000,
            0 <= s.z.td <= 0x100_0000_0000,
            s.x.td == 0 <==> s.x.step == 0,
            s.y.td == 0 <==> s.y.step == 0,
            s.z.td == 0 <==> s.z.step == 0,
            spec_march(cells, dims, s0, march_fuel(dims)) == spec_march(
                cells,
                dims,
                s,
                (march_fuel(dims) - steps) as nat,
            ),
            spec_march_steps(cells, dims, s0, march_fuel(dims)) == steps + spec_march_steps(
                cells,
                dims,
                s,
                (march_fuel(dims) - steps) as nat,
            ),
            steps as int <= dim_sum(dims),
        decreases dim_sum(dims) - steps,
    {
        if !(px >= 0 && px < gw as i128 && py >= 0 && py < gh as i128 && pz >= 0 && pz < gd
            as i128) {
            return (MarchResult::Miss, steps);
        }
        let v = grid.value_at(px as usize, py as usize, pz as usize);
        if v != 0 {
            return (MarchResult::Hit { material_id: v }, steps);
        }
        proof {
            assert(s.x.tn <= 0x40_0000_0000_0000_0000_0000 && s.x.tn + ray.den as int <= (
            ray.den as int) * (kx + 2)) by (nonlinear_arith)
                requires
                    0 <= s.x.tn <= (ray.den as int) * (kx + 1),
                    1 <= ray.den as int <= 0x10_0000,
                    0 <= kx <= 0xffff_ffff_ffff_ffff,
            ;
            assert(s.y.tn <= 0x40_0000_0000_0000_0000_0000 && s.y.tn + ray.den as int <= (
            ray.den as int) * (ky + 2)) by (nonlinear_arith)
                requires
                    0 <= s.y.tn <= (ray.den as int) * (ky + 1),
                    1 <= ray.den as int <= 0x10_0000,
                    0 <= ky <= 0xffff_ffff_ffff_ffff,
            ;
            assert(s.z.tn <= 0x40_0000_0000_0000_0000_0000 && s.z.tn + ray.den as int <= (
            ray.den as int) * (kz + 2)) by (nonlinear_arith)
                requires
                    0 <= s.z.tn <= (ray.den as int) * (kz + 1),
                    1 <= ray.den as int <= 0x10_0000,
                    0 <= kz <= 0xffff_ffff_ffff_ffff,
            ;
        }
        if tdx != 0 && tmax_le_exec(tnx, tdx, tny, tdy) && tmax_le_exec(tnx, tdx, tnz, tdz) {
            px = px + (sx as i128);
            tnx = tnx + den128;
            proof {
                s = advanced(s);
                kx = kx + 1;
            }
        } else if tdy != 0 && tmax_le_exec(tny, tdy, tnz, tdz) {
            py = py + (sy as i128);
            tny = tny + den128;
            proof {
                s = advanced(s);
                ky = ky + 1;
            }
        } else if tdz != 0 {
            pz = pz + (sz as i128);
            tnz = tnz + den128;
            proof {
                s = advanced(s);
                kz = kz + 1;
            }
        } else {
            return (MarchResult::Miss, steps);
        }
        steps = steps + 1;
    }
}

/// Marches the ray through the grid: a miss once the walk leaves the
/// grid or has no axis left to advance, a hit with the stored material
/// id at the first occupied cell.
pub fn march(grid: &DenseGrid, ray: &Ray) -> (res: MarchResult)
    requires
        ray.wf(),
    ensures
        res == spec_march(
            grid_cells(*grid),
            grid_dims(*grid),
            init_state(*ray),
            march_fuel(grid_dims(*grid)),
        ),
{
    let (res, _) = march_steps(grid, ray);
    res
}

/// A hit is always backed by the grid: the returned material id is
/// non-zero and is stored at some in-range cell.
pub proof fn lemma_march_hit(
    cells: Map<(int, int, int), u8>,
    dims: (int, int, int),
    s: MarchState,
    fuel: nat,
    m: u8,
)
    requires
        spec_march(cells, dims, s, fuel) == (MarchResult::Hit { material_id: m }),
    ensures
        m != 0,
        exists|c: (int, int, int)| in_dims(dims, c) && cells[c] == m,
    decreases fuel,
{
    if fuel > 0 {
        let pos = (s.x.pos, s.y.pos, s.z.pos);
        if in_dims(dims, pos) && cells[pos] != 0 {
            assert(in_dims(dims, pos) && cells[pos] == m);
        } else if in_dims(dims, pos) && can_advance(s) {
            lemma_march_hit(cells, dims, advanced(s), (fuel - 1) as nat, m);
        }
    }
}

/// A straight scan along +x at fixed y and z: the result of sampling
/// each cell of the row in order until one is occupied or the row
/// leaves the grid.
pub open spec fn row_march_x(
    cells: Map<(int, int, int), u8>,
    dims: (int, int, int),
    x: int,
    y: int,
    z: int,
    fuel: nat,
) -> MarchResult
    decreases fuel,
{
    if fuel == 0 {
        MarchResult::Miss
    } else if !in_dims(dims, (x, y, z)) {
        MarchResult::Miss
    } else if cells[(x, y, z)] != 0 {
        MarchResult::Hit { material_id: cells[(x, y, z)] }
    } else {
        row_march_x(cells, dims, x + 1, y, z, (fuel - 1) as nat)
    }
}

/// A state whose y and z axes never advance and whose x axis steps
/// upward marches exactly like a straight scan of the x row: the other
/// two coordinates never change.
pub proof fn lemma_march_axis_aligned_x(
    cells: Map<(int, int, int), u8>,
    dims: (int, int, int),
    s: MarchState,
    fuel: nat,
)
    requires
        s.x.step == 1,
        s.x.td != 0,
        s.y.td == 0,
        s.z.td == 0,
    ensures
        spec_march(cells, dims, s, fuel) == row_march_x(cells, dims, s.x.pos, s.y.pos, s.z.pos, fuel),
    decreases fuel,
{
    if fuel > 0 {
        let pos = (s.x.pos, s.y.pos, s.z.pos);
        if in_dims(dims, pos) && cells[pos] == 0 {
            lemma_march_axis_aligned_x(cells, dims, advanced(s), (fuel - 1) as nat);
        }
    }
}

/// A ray pointing along +x marches exactly like a straight scan of its
/// x row: y and z never advance.
pub proof fn lemma_ray_along_x(
    cells: Map<(int, int, int), u8>,
    dims: (int, int, int),
    r: Ray,
    fuel: nat,
)
    requires
        r.den >= 1,
        r.dx > 0,
        r.dy == 0,
        r.dz == 0,
    ensures
        spec_march(cells, dims, init_state(r), fuel) == row_march_x(
            cells,
            dims,
            init_state(r).x.pos,
            init_state(r).y.pos,
            init_state(r).z.pos,
            fuel,
        ),
{
    assert((r.den as int) * (r.dx as int) >= 1) by (nonlinear_arith)
        requires
            r.den as int >= 1,
            r.dx as int >= 1,
    ;
    lemma_march_axis_aligned_x(cells, dims, init_state(r), fuel);
}

/// An axis state with its boundary-distance denominator scaled by a
/// factor, as arises from scaling the ray's direction component.
pub open spec fn scaled_axis(a: Axis, c: int) -> Axis {
    Axis { pos: a.pos, step: a.step, tn: a.tn, td: a.td * c }
}

/// A traversal state with every axis scaled by the same factor.
pub open spec fn scaled_state(s: MarchState, c: int) -> MarchState {
    MarchState {
        x: scaled_axis(s.x, c),
        y: scaled_axis(s.y, c),
        z: scaled_axis(s.z, c),
        den: s.den,
    }
}

/// Scaling both fractions' denominators by one positive factor changes
/// no boundary-distance comparison.
proof fn lemma_tmax_le_scaled(tn_a: int, td_a: int, tn_b: int, td_b: int, c: int)
    requires
        c > 0,
    ensures
        tmax_le_vals(tn_a, td_a * c, tn_b, td_b * c) == tmax_le_vals(tn_a, td_a, tn_b, td_b),
{
    assert((td_a * c == 0 <==> td_a == 0) && (td_b * c == 0 <==> td_b == 0))
        by (nonlinear_arith)
        requires
            c > 0,
    ;
    if td_a != 0 && td_b != 0 {
        assert((tn_a * (td_b * c) <= tn_b * (td_a * c)) == (tn_a * td_b <= tn_b * td_a))
            by (nonlinear_arith)
            requires
                c > 0,
        ;
    }
}

/// Scaling a ray's direction by a positive factor changes no step of
/// the march: only the direction's orientation matters.
pub proof fn lemma_march_scale_invariant(
    cells: Map<(int, int, int), u8>,
    dims: (int, int, int),
    s: MarchState,
    c: int,
    fuel: nat,
)
    requires
        c > 0,
    ensures
        spec_march(cells, dims, scaled_state(s, c), fuel) == spec_march(cells, dims, s, fuel),
    decreases fuel,
{
    if fuel > 0 {
        lemma_tmax_le_scaled(s.x.tn, s.x.td, s.y.tn, s.y.td, c);
        lemma_tmax_le_scaled(s.x.tn, s.x.td, s.z.tn, s.z.td, c);
        lemma_tmax_le_scaled(s.y.tn, s.y.td, s.z.tn, s.z.td, c);
        assert((s.x.td * c == 0 <==> s.x.td == 0) && (s.y.td * c == 0 <==> s.y.td == 0) && (
        s.z.td * c == 0 <==> s.z.td == 0)) by (nonlinear_arith)
            requires
                c > 0,
        ;
        if can_advance(s) {
            assert(advanced(scaled_state(s, c)) == scaled_state(advanced(s), c));
            lemma_march_scale_invariant(cells, dims, advanced(s), c, (fuel - 1) as nat);
        }
    }
}

/// The initial state of a ray whose direction was scaled by a positive
/// factor is the scaled initial state: with `lemma_march_scale_invariant`,
/// two rays with the same origin and positively proportional directions
/// march identically.
pub proof fn lemma_ray_direction_scale(r1: Ray, r2: Ray, c: int)
    requires
        c > 0,
        r2.ox == r1.ox,
        r2.oy == r1.oy,
        r2.oz == r1.oz,
        r2.den == r1.den,
        r2.dx as int == c * (r1.dx as int),
        r2.dy as int == c * (r1.dy as int),
        r2.dz as int == c * (r1.dz as int),
    ensures
        init_state(r2) == scaled_state(init_state(r1), c),
{
    lemma_init_axis_scale(r1.ox as int, r1.den as int, r1.dx as int, r2.dx as int, c);
    lemma_init_axis_scale(r1.oy as int, r1.den as int, r1.dy as int, r2.dy as int, c);
    lemma_init_axis_scale(r1.oz as int, r1.den as int, r1.dz as int, r2.dz as int, c);
}

/// One axis of `lemma_ray_direction_scale`.
proof fn lemma_init_axis_scale(o: int, den: int, d: int, d2: int, c: int)
    requires
        c > 0,
        d2 == c * d,
    ensures
        init_axis(o, den, d2) == scaled_axis(init_axis(o, den, d), c),
{
    assert((d > 0 ==> d2 > 0) && (d < 0 ==> d2 < 0) && (d == 0 ==> d2 == 0))
        by (nonlinear_arith)
        requires
            c > 0,
            d2 == c * d,
    ;
    if d > 0 {
        assert(den * d2 == (den * d) * c) by (nonlinear_arith)
            requires
                d2 == c * d,
        ;
    } else if d < 0 {
        assert(den * (-d2) == (den * (-d)) * c) by (nonlinear_arith)
            requires
                d2 == c * d,
        ;
    } else {
        assert(0 * c == 0) by (nonlinear_arith);
    }
}

/// Every ray misses an all-empty grid: marching samples cells only, so
/// a grid with nothing in range can never produce a hit.
pub proof fn lemma_march_all_empty(
    cells: Map<(int, int, int), u8>,
    dims: (int, int, int),
    s: MarchState,
    fuel: nat,
)
    requires
        forall|c: (int, int, int)| in_dims(dims, c) ==> cells[c] == 0,
    ensures
        spec_march(cells, dims, s, fuel) == MarchResult::Miss,
    decreases fuel,
{
    if fuel > 0 {
        let pos = (s.x.pos, s.y.pos, s.z.pos);
        if in_dims(dims, pos) && cells[pos] == 0 && can_advance(s) {
            lemma_march_all_empty(cells, dims, advanced(s), (fuel - 1) as nat);
        }
    }
}

} // verus!
