//! The mathematical model of one simulation step.
//!
//! Every function here is a specification: it defines, over unbounded
//! integers, exactly what the executable step computes, including the
//! rounding of each fixed-point division.  Positions, velocities, the
//! affine matrix and masses are scaled by `SCALE`; interpolation weights
//! are kept as exact numerators over the denominator `WDEN` per axis
//! (`WDEN2` for the separable 2D weight), so that the weights of the
//! 3x3 stencil sum to the denominator exactly.

use crate::arith::clamp_i;
use crate::arith::div_tz;
use crate::sim::Cell;
use crate::sim::FxMat2;
use crate::sim::FxVec2;
use crate::sim::Particle2D;
use vstd::prelude::*;

verus! {

/// Fixed-point unit: a real value `x` is stored as `x * SCALE`.
pub const SCALE: i64 = 1000;

/// Half a cell, in fixed-point units.
pub const HALF: i64 = 500;

/// Numerator base of the middle B-spline weight: `3 * SCALE * SCALE / 2`.
pub const W_MID_BASE: i64 = 1_500_000;

/// Denominator of one axis weight: `2 * SCALE * SCALE`.  The three axis
/// weight numerators sum to exactly this value.
pub const WDEN: i64 = 2_000_000;

/// Denominator of a separable 2D weight: `WDEN * WDEN`.
pub const WDEN2: i64 = 4_000_000_000_000;

/// Divisor turning an accumulated affine term back to `SCALE` units,
/// including the kernel constant 4: `WDEN2 * SCALE / 4`.
pub const MDEN: i64 = 1_000_000_000_000_000;

/// Range cap on each velocity and affine-matrix component; results
/// saturate here so every intermediate product stays in range.
pub const VEL_CAP: i64 = 1_000_000_000;

/// Largest particle mass, in `SCALE` units.
pub const MASS_CAP: i64 = 1_000_000;

/// Largest magnitude of the per-step gravity impulse `gravity * dt`.
pub const GDT_CAP: i64 = 1_000_000_000;

/// Largest magnitude of a gravity acceleration component.
pub const GRAV_CAP: i64 = 1_000_000;

/// Largest time step, in `SCALE` units.
pub const DT_CAP: i64 = 1_000_000;

/// Largest number of particles.
pub const N_CAP: usize = 16_000_000;

/// Largest grid extent on one axis, in cells.
pub const AXIS_CAP: usize = 100_000;

/// Largest separable 2D weight numerator: `(3 * WDEN / 4)^2`.
pub const W2_MAX: i64 = 2_250_000_000_000;

/// Largest single mass contribution: `W2_MAX * MASS_CAP`.
pub const MC_MAX: i64 = 2_250_000_000_000_000_000;

/// Bound on `velocity + q` for an in-range particle.
pub const VQ_BOUND: i64 = 4_000_000_000;

/// Bound on a resolved grid velocity component: `VQ_BOUND + GDT_CAP`.
pub const GV_BOUND: i64 = 5_000_000_000;

/// Quadratic B-spline axis weight numerator (denominator `WDEN`) for the
/// stencil offset `off` in `{-1, 0, 1}`, where `d` is the fixed-point
/// offset of the particle from its cell center, in `[-HALF, HALF)`.
pub open spec fn w_axis(d: int, off: int) -> int {
    if off == -1 {
        (HALF - d) * (HALF - d)
    } else if off == 0 {
        W_MID_BASE - 2 * d * d
    } else {
        (HALF + d) * (HALF + d)
    }
}

/// Fractional part of the x position, in `[0, SCALE)`.
pub open spec fn frac_x(p: Particle2D) -> int {
    p.position.x as int % SCALE as int
}

/// Fractional part of the y position, in `[0, SCALE)`.
pub open spec fn frac_y(p: Particle2D) -> int {
    p.position.y as int % SCALE as int
}

/// Grid column containing the particle.
pub open spec fn cell_col(p: Particle2D) -> int {
    p.position.x as int / SCALE as int
}

/// Grid row containing the particle.
pub open spec fn cell_row(p: Particle2D) -> int {
    p.position.y as int / SCALE as int
}

/// Offset of the particle from its cell center along x, in `[-HALF, HALF)`.
pub open spec fn dshift_x(p: Particle2D) -> int {
    frac_x(p) - HALF
}

/// Offset of the particle from its cell center along y, in `[-HALF, HALF)`.
pub open spec fn dshift_y(p: Particle2D) -> int {
    frac_y(p) - HALF
}

/// Column offset of stencil slot `k` in `0..9`: one of `-1, 0, 1`.
pub open spec fn off_col(k: int) -> int {
    k % 3 - 1
}

/// Row offset of stencil slot `k` in `0..9`: one of `-1, 0, 1`.
pub open spec fn off_row(k: int) -> int {
    k / 3 - 1
}

/// Flat row-major index of the grid cell of stencil slot `k`.
pub open spec fn target(p: Particle2D, k: int, xs: int) -> int {
    (cell_row(p) + off_row(k)) * xs + cell_col(p) + off_col(k)
}

/// x distance from the particle to the center of the cell of slot `k`.
pub open spec fn dist_x(p: Particle2D, k: int) -> int {
    off_col(k) * SCALE as int + HALF - frac_x(p)
}

/// y distance from the particle to the center of the cell of slot `k`.
pub open spec fn dist_y(p: Particle2D, k: int) -> int {
    off_row(k) * SCALE as int + HALF - frac_y(p)
}

/// Separable 2D weight numerator of stencil slot `k` (denominator `WDEN2`).
pub open spec fn weight(p: Particle2D, k: int) -> int {
    w_axis(dshift_x(p), off_col(k)) * w_axis(dshift_y(p), off_row(k))
}

/// x component of the APIC term `momentum * cell_dist`, in `SCALE` units.
pub open spec fn apic_x(p: Particle2D, k: int) -> int {
    div_tz(p.momentum.xx * dist_x(p, k) + p.momentum.xy * dist_y(p, k), SCALE as int)
}

/// y component of the APIC term `momentum * cell_dist`, in `SCALE` units.
pub open spec fn apic_y(p: Particle2D, k: int) -> int {
    div_tz(p.momentum.yx * dist_x(p, k) + p.momentum.yy * dist_y(p, k), SCALE as int)
}

/// A grid cell as a mathematical value: `(mass, velocity_x, velocity_y)`.
/// Mass carries the factor `WDEN2`; the velocity fields hold accumulated
/// momentum (mass times velocity) until the grid is resolved.
pub open spec fn cell_m(c: Cell) -> (int, int, int) {
    (c.mass as int, c.velocity_x as int, c.velocity_y as int)
}

/// The whole grid as a sequence of mathematical cells.
pub open spec fn gview(g: Seq<Cell>) -> Seq<(int, int, int)> {
    g.map_values(|c: Cell| cell_m(c))
}

/// The all-zero grid of `n` cells.
pub open spec fn zero_grid(n: int) -> Seq<(int, int, int)> {
    Seq::new(n as nat, |i: int| (0int, 0int, 0int))
}

/// Grid after scattering the first `k` of the 9 stencil contributions of
/// particle `p` (P2G).
pub open spec fn scatter_upto(g: Seq<(int, int, int)>, p: Particle2D, xs: int, k: int) -> Seq<
    (int, int, int),
>
    decreases k,
{
    if k <= 0 {
        g
    } else {
        let g0 = scatter_upto(g, p, xs, k - 1);
        let i = target(p, k - 1, xs);
        let mc = weight(p, k - 1) * p.mass as int;
        let c = g0[i];
        g0.update(
            i,
            (
                c.0 + mc,
                c.1 + (p.velocity.x + apic_x(p, k - 1)) * mc,
                c.2 + (p.velocity.y + apic_y(p, k - 1)) * mc,
            ),
        )
    }
}

/// Grid after scattering the first `n` particles onto the zero grid.
pub open spec fn p2g_upto(ps: Seq<Particle2D>, xs: int, ys: int, n: int) -> Seq<(int, int, int)>
    decreases n,
{
    if n <= 0 {
        zero_grid(xs * ys)
    } else {
        scatter_upto(p2g_upto(ps, xs, ys, n - 1), ps[n - 1], xs, 9)
    }
}

/// The complete particle-to-grid transfer.
pub open spec fn p2g(ps: Seq<Particle2D>, xs: int, ys: int) -> Seq<(int, int, int)> {
    p2g_upto(ps, xs, ys, ps.len() as int)
}

/// One cell after the grid velocity update: accumulated momentum is
/// divided by mass, gravity is applied, and velocity components are
/// zeroed in the two-cell wall margin.  Cells without mass are untouched.
pub open spec fn resolve_cell(c: (int, int, int), i: int, xs: int, ys: int, gx: int, gy: int) -> (
    int,
    int,
    int,
) {
    if c.0 <= 0 {
        c
    } else {
        let vx = div_tz(c.1, c.0) + gx;
        let vy = div_tz(c.2, c.0) + gy;
        let col = i % xs;
        let row = i / xs;
        let vx2 = if col < 2 || col > xs - 3 {
            0int
        } else {
            vx
        };
        let vy2 = if row < 2 || row > ys - 3 {
            0int
        } else {
            vy
        };
        (c.0, vx2, vy2)
    }
}

/// The whole grid after the velocity update.
pub open spec fn resolve_all(
    g: Seq<(int, int, int)>,
    xs: int,
    ys: int,
    gx: int,
    gy: int,
) -> Seq<(int, int, int)> {
    Seq::new(g.len(), |i: int| resolve_cell(g[i], i, xs, ys, gx, gy))
}

/// Accumulated G2P sums over the first `k` stencil slots:
/// `(vel_x, vel_y, b_xx, b_xy, b_yx, b_yy)`, where the `b` entries are the
/// columns of the affine velocity estimate `sum w * v (x) dist`.
pub open spec fn gather_upto(p: Particle2D, g: Seq<(int, int, int)>, xs: int, k: int) -> (
    int,
    int,
    int,
    int,
    int,
    int,
)
    decreases k,
{
    if k <= 0 {
        (0int, 0int, 0int, 0int, 0int, 0int)
    } else {
        let acc = gather_upto(p, g, xs, k - 1);
        let c = g[target(p, k - 1, xs)];
        let w = weight(p, k - 1);
        let wvx = w * c.1;
        let wvy = w * c.2;
        let dx = dist_x(p, k - 1);
        let dy = dist_y(p, k - 1);
        (acc.0 + wvx, acc.1 + wvy, acc.2 + wvx * dx, acc.3 + wvx * dy, acc.4 + wvy * dx, acc.5
            + wvy * dy)
    }
}

/// One particle after G2P, APIC reconstruction, advection and the
/// position clamp.  Velocity and matrix components saturate at
/// `VEL_CAP`; the position is clamped into `[SCALE, (size - 2) * SCALE]`.
pub open spec fn g2p_one(
    p: Particle2D,
    g: Seq<(int, int, int)>,
    xs: int,
    ys: int,
    dt: int,
) -> Particle2D {
    let acc = gather_upto(p, g, xs, 9);
    let vx = clamp_i(div_tz(acc.0, WDEN2 as int), -VEL_CAP as int, VEL_CAP as int);
    let vy = clamp_i(div_tz(acc.1, WDEN2 as int), -VEL_CAP as int, VEL_CAP as int);
    let bxx = clamp_i(div_tz(acc.2, MDEN as int), -VEL_CAP as int, VEL_CAP as int);
    let bxy = clamp_i(div_tz(acc.3, MDEN as int), -VEL_CAP as int, VEL_CAP as int);
    let byx = clamp_i(div_tz(acc.4, MDEN as int), -VEL_CAP as int, VEL_CAP as int);
    let byy = clamp_i(div_tz(acc.5, MDEN as int), -VEL_CAP as int, VEL_CAP as int);
    let px = clamp_i(
        p.position.x + div_tz(vx * dt, SCALE as int),
        SCALE as int,
        (xs - 2) * SCALE as int,
    );
    let py = clamp_i(
        p.position.y + div_tz(vy * dt, SCALE as int),
        SCALE as int,
        (ys - 2) * SCALE as int,
    );
    Particle2D {
        position: FxVec2 { x: px as i64, y: py as i64 },
        velocity: FxVec2 { x: vx as i64, y: vy as i64 },
        momentum: FxMat2 { xx: bxx as i64, xy: bxy as i64, yx: byx as i64, yy: byy as i64 },
        mass: p.mass,
    }
}

/// The particle set after one full step: P2G, grid resolution, then G2P
/// for every particle.
pub open spec fn step_particles(
    ps: Seq<Particle2D>,
    xs: int,
    ys: int,
    gx: int,
    gy: int,
    dt: int,
) -> Seq<Particle2D> {
    let grid = resolve_all(p2g(ps, xs, ys), xs, ys, gx, gy);
    Seq::new(ps.len(), |i: int| g2p_one(ps[i], grid, xs, ys, dt))
}

/// Derived geometry of an in-range particle: its cell, the fractional
/// offsets, and their ranges.  The containing cell is at least one cell
/// away from the grid edge, so the whole 3x3 stencil is in bounds.
pub proof fn lemma_particle_geometry(p: Particle2D, xs: int, ys: int)
    requires
        particle_ok(p, xs, ys),
        5 <= xs,
        5 <= ys,
    ensures
        1 <= cell_col(p) <= xs - 2,
        1 <= cell_row(p) <= ys - 2,
        0 <= frac_x(p) < 1000,
        0 <= frac_y(p) < 1000,
        p.position.x as int == cell_col(p) * 1000 + frac_x(p),
        p.position.y as int == cell_row(p) * 1000 + frac_y(p),
        -500 <= dshift_x(p) <= 499,
        -500 <= dshift_y(p) <= 499,
{
    vstd::arithmetic::div_mod::lemma_fundamental_div_mod(p.position.x as int, 1000);
    vstd::arithmetic::div_mod::lemma_fundamental_div_mod(p.position.y as int, 1000);
    vstd::arithmetic::div_mod::lemma_mod_division_less_than_divisor(p.position.x as int, 1000);
    vstd::arithmetic::div_mod::lemma_mod_division_less_than_divisor(p.position.y as int, 1000);
    vstd::arithmetic::div_mod::lemma_div_is_ordered(1000, p.position.x as int, 1000);
    vstd::arithmetic::div_mod::lemma_div_is_ordered(1000, p.position.y as int, 1000);
    vstd::arithmetic::div_mod::lemma_div_is_ordered(p.position.x as int, (xs - 2) * 1000, 1000);
    vstd::arithmetic::div_mod::lemma_div_is_ordered(p.position.y as int, (ys - 2) * 1000, 1000);
    vstd::arithmetic::div_mod::lemma_div_by_multiple(xs - 2, 1000);
    vstd::arithmetic::div_mod::lemma_div_by_multiple(ys - 2, 1000);
}

/// Ranges of the three axis weight numerators, and their exact sum: the
/// quadratic B-spline weights of one axis always add up to `WDEN`.
pub proof fn lemma_weight_facts(d: int)
    requires
        -500 <= d <= 499,
    ensures
        0 <= w_axis(d, -1) <= 1_000_000,
        0 <= w_axis(d, 0) <= 1_500_000,
        0 <= w_axis(d, 1) <= 1_000_000,
        w_axis(d, -1) + w_axis(d, 0) + w_axis(d, 1) == WDEN,
{
    assert(0 <= (500 - d) * (500 - d) <= 1_000_000) by (nonlinear_arith)
        requires
            -500 <= d <= 499,
    ;
    assert(0 <= (500 + d) * (500 + d) <= 1_000_000) by (nonlinear_arith)
        requires
            -500 <= d <= 499,
    ;
    assert(0 <= 2 * d * d <= 500_000) by (nonlinear_arith)
        requires
            -500 <= d <= 499,
    ;
    assert((500 - d) * (500 - d) + (1_500_000 - 2 * d * d) + (500 + d) * (500 + d)
        == 2_000_000) by (nonlinear_arith);
}

/// A row-major index built from an in-range row and column is in range.
pub proof fn lemma_row_major_bound(row: int, col: int, xs: int, ys: int)
    by (nonlinear_arith)
    requires
        0 <= row < ys,
        0 <= col < xs,
        0 < xs,
    ensures
        0 <= row * xs + col < xs * ys,
{
}

/// Range invariant of one particle: position inside the clamped domain,
/// velocity, affine matrix and mass within the fixed-point caps.
pub open spec fn particle_ok(p: Particle2D, xs: int, ys: int) -> bool {
    &&& SCALE as int <= p.position.x <= (xs - 2) * SCALE as int
    &&& SCALE as int <= p.position.y <= (ys - 2) * SCALE as int
    &&& -VEL_CAP <= p.velocity.x <= VEL_CAP
    &&& -VEL_CAP <= p.velocity.y <= VEL_CAP
    &&& -VEL_CAP <= p.momentum.xx <= VEL_CAP
    &&& -VEL_CAP <= p.momentum.xy <= VEL_CAP
    &&& -VEL_CAP <= p.momentum.yx <= VEL_CAP
    &&& -VEL_CAP <= p.momentum.yy <= VEL_CAP
    &&& 0 < p.mass <= MASS_CAP
}

} // verus!
