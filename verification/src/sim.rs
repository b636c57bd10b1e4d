//! The simulation state and the step itself.

use crate::arith::clamp_q128;
use crate::arith::div_q128;
use crate::arith::div_q64;
use crate::arith::div_tz;
use crate::arith::lemma_div_tz_bound;
use crate::arith::lemma_mul_bound;
use crate::arith::lemma_mul_le_scale;
use crate::model::apic_x;
use crate::model::apic_y;
use crate::model::cell_m;
use crate::model::g2p_one;
use crate::model::gather_upto;
use crate::model::resolve_all;
use crate::model::resolve_cell;
use crate::model::step_particles;
use crate::model::GV_BOUND;
use crate::model::MDEN;
use crate::model::WDEN2;
use crate::model::cell_col;
use crate::model::cell_row;
use crate::model::dist_x;
use crate::model::dist_y;
use crate::model::dshift_x;
use crate::model::dshift_y;
use crate::model::frac_x;
use crate::model::frac_y;
use crate::model::gview;
use crate::model::lemma_particle_geometry;
use crate::model::lemma_row_major_bound;
use crate::model::lemma_weight_facts;
use crate::model::off_col;
use crate::model::off_row;
use crate::model::p2g;
use crate::model::p2g_upto;
use crate::model::particle_ok;
use crate::model::scatter_upto;
use crate::model::target;
use crate::model::w_axis;
use crate::model::weight;
use crate::model::zero_grid;
use crate::model::AXIS_CAP;
use crate::model::DT_CAP;
use crate::model::GDT_CAP;
use crate::model::GRAV_CAP;
use crate::model::MASS_CAP;
use crate::model::MC_MAX;
use crate::model::N_CAP;
use crate::model::SCALE;
use crate::model::VEL_CAP;
use crate::model::VQ_BOUND;
use crate::model::W2_MAX;
use crate::arith::lemma_mul_nonneg_bound;
use vstd::prelude::*;

verus! {

/// A fixed-point 2D vector; each component is a real value times `SCALE`.
#[derive(Clone, Copy, Debug, PartialEq, Eq, Structural)]
pub struct FxVec2 {
    pub x: i64,
    pub y: i64,
}

/// A fixed-point 2x2 matrix, row major: `xy` is row x, column y.
#[derive(Clone, Copy, Debug, PartialEq, Eq, Structural)]
pub struct FxMat2 {
    pub xx: i64,
    pub xy: i64,
    pub yx: i64,
    pub yy: i64,
}

/// One material point: position, velocity, APIC affine momentum matrix,
/// and a constant positive mass.
#[derive(Clone, Copy, Debug, PartialEq, Eq, Structural)]
pub struct Particle2D {
    pub position: FxVec2,
    pub velocity: FxVec2,
    pub momentum: FxMat2,
    pub mass: i64,
}

/// A transient grid cell: per-step accumulator of mass and momentum,
/// then a resolved velocity.  Wide fields hold the exact scaled sums.
#[derive(Clone, Copy, Debug, PartialEq, Eq, Structural)]
pub struct Cell {
    pub velocity_x: i128,
    pub velocity_y: i128,
    pub mass: i128,
}

impl Cell {
    /// The empty cell every step starts from.
    pub fn zero() -> (c: Cell)
        ensures
            c.mass == 0,
            c.velocity_x == 0,
            c.velocity_y == 0,
    {
        Cell { velocity_x: 0, velocity_y: 0, mass: 0 }
    }
}

/// The simulation: grid dimensions, the particle set, the precomputed
/// per-step gravity impulse, the time step, and a step counter.
pub struct Simulation2D {
    pub x_size: usize,
    pub y_size: usize,
    pub num_cells: usize,
    pub particles: Vec<Particle2D>,
    pub gravity_times_dt: FxVec2,
    pub dt: i64,
    pub steps_run: usize,
}

impl Simulation2D {
    /// Well-formed state: dimensions large enough for the two-cell wall
    /// margin, constants within the fixed-point caps, and every particle
    /// in range.
    pub open spec fn wf(self) -> bool {
        &&& 5 <= self.x_size <= AXIS_CAP
        &&& 5 <= self.y_size <= AXIS_CAP
        &&& self.num_cells == self.x_size * self.y_size
        &&& 0 < self.dt <= DT_CAP
        &&& -GDT_CAP <= self.gravity_times_dt.x <= GDT_CAP
        &&& -GDT_CAP <= self.gravity_times_dt.y <= GDT_CAP
        &&& self.particles.len() <= N_CAP
        &&& forall|i: int|
            0 <= i < self.particles.len() ==> particle_ok(
                #[trigger] self.particles[i],
                self.x_size as int,
                self.y_size as int,
            )
    }

    /// Build a simulation.  The caller supplies particles already inside
    /// the clamped domain `[SCALE, (size - 2) * SCALE]`; the per-step
    /// gravity impulse `gravity * dt` is fixed once, here.
    pub fn new(
        x_size: usize,
        y_size: usize,
        particles: Vec<Particle2D>,
        gravity: FxVec2,
        dt: i64,
    ) -> (s: Simulation2D)
        requires
            5 <= x_size <= AXIS_CAP,
            5 <= y_size <= AXIS_CAP,
            x_size * y_size <= usize::MAX,
            0 < dt <= DT_CAP,
            -GRAV_CAP <= gravity.x <= GRAV_CAP,
            -GRAV_CAP <= gravity.y <= GRAV_CAP,
            particles.len() <= N_CAP,
            forall|i: int|
                0 <= i < particles.len() ==> particle_ok(
                    #[trigger] particles[i],
                    x_size as int,
                    y_size as int,
                ),
        ensures
            s.wf(),
            s.x_size == x_size,
            s.y_size == y_size,
            s.num_cells == x_size * y_size,
            s.particles == particles,
            s.gravity_times_dt.x as int == div_tz(gravity.x * dt, SCALE as int),
            s.gravity_times_dt.y as int == div_tz(gravity.y * dt, SCALE as int),
            s.dt == dt,
            s.steps_run == 0,
    {
        proof {
            lemma_mul_bound(gravity.x as int, dt as int, GRAV_CAP as int, DT_CAP as int);
            lemma_mul_bound(gravity.y as int, dt as int, GRAV_CAP as int, DT_CAP as int);
            lemma_div_tz_bound(gravity.x * dt, SCALE as int, GDT_CAP as int);
            lemma_div_tz_bound(gravity.y * dt, SCALE as int, GDT_CAP as int);
        }
        let gx = div_q64(gravity.x * dt, SCALE);
        let gy = div_q64(gravity.y * dt, SCALE);
        Simulation2D {
            x_size,
            y_size,
            num_cells: x_size * y_size,
            particles,
            gravity_times_dt: FxVec2 { x: gx, y: gy },
            dt,
            steps_run: 0,
        }
    }

    /// Particle-to-grid transfer: a fresh zeroed grid receives the mass
    /// and momentum of every particle, scattered over its 3x3 stencil
    /// with the quadratic B-spline weights and the APIC term.
    #[verifier::rlimit(100)]
    pub fn build_grid(&self) -> (g: Vec<Cell>)
        requires
            self.wf(),
        ensures
            g@.len() == self.num_cells,
            gview(g@) == p2g(self.particles@, self.x_size as int, self.y_size as int),
            forall|j: int|
                0 <= j < g@.len() ==> 0 <= #[trigger] g@[j].mass <= 9 * self.particles@.len()
                    * MC_MAX,
            forall|j: int|
                0 <= j < g@.len() ==> -(g@[j].mass * VQ_BOUND) <= #[trigger] g@[j].velocity_x
                    <= g@[j].mass * VQ_BOUND,
            forall|j: int|
                0 <= j < g@.len() ==> -(g@[j].mass * VQ_BOUND) <= #[trigger] g@[j].velocity_y
                    <= g@[j].mass * VQ_BOUND,
    {
        let ghost xs = self.x_size as int;
        let ghost ys = self.y_size as int;
        let n = self.num_cells;
        let mut grid: Vec<Cell> = Vec::new();
        while grid.len() < n
            invariant
                grid@.len() <= n,
                forall|j: int|
                    0 <= j < grid@.len() ==> (#[trigger] grid@[j]).mass == 0
                        && grid@[j].velocity_x == 0 && grid@[j].velocity_y == 0,
            decreases n - grid@.len(),
        {
            grid.push(Cell::zero());
        }
        proof {
            assert(gview(grid@) =~= zero_grid(xs * ys));
        }
        let np = self.particles.len();
        let mut pi: usize = 0;
        while pi < np
            invariant
                self.wf(),
                np == self.particles.len(),
                pi <= np,
                grid@.len() == self.num_cells,
                xs == self.x_size as int,
                ys == self.y_size as int,
                gview(grid@) == p2g_upto(self.particles@, xs, ys, pi as int),
                forall|j: int|
                    0 <= j < grid@.len() ==> 0 <= #[trigger] grid@[j].mass <= 9 * (pi as int)
                        * MC_MAX,
                forall|j: int|
                    0 <= j < grid@.len() ==> -(grid@[j].mass * VQ_BOUND)
                        <= #[trigger] grid@[j].velocity_x <= grid@[j].mass * VQ_BOUND,
                forall|j: int|
                    0 <= j < grid@.len() ==> -(grid@[j].mass * VQ_BOUND)
                        <= #[trigger] grid@[j].velocity_y <= grid@[j].mass * VQ_BOUND,
            decreases np - pi,
        {
            let p = self.particles[pi];
            proof {
                assert(particle_ok(p, xs, ys));
                lemma_particle_geometry(p, xs, ys);
                lemma_weight_facts(dshift_x(p));
                lemma_weight_facts(dshift_y(p));
            }
            let pux: usize = p.position.x as usize;
            let puy: usize = p.position.y as usize;
            let cx: usize = pux / 1000;
            let cy: usize = puy / 1000;
            let fx: usize = pux % 1000;
            let fy: usize = puy % 1000;
            let dxs: i64 = fx as i64 - 500;
            let dys: i64 = fy as i64 - 500;
            proof {
                assert(cx as int == cell_col(p));
                assert(cy as int == cell_row(p));
                assert(fx as int == frac_x(p));
                assert(fy as int == frac_y(p));
                assert(dxs as int == dshift_x(p));
                assert(dys as int == dshift_y(p));
            }
            let wxm: i64 = (500 - dxs) * (500 - dxs);
            let wx0: i64 = 1_500_000 - 2 * dxs * dxs;
            let wxp: i64 = (500 + dxs) * (500 + dxs);
            let wym: i64 = (500 - dys) * (500 - dys);
            let wy0: i64 = 1_500_000 - 2 * dys * dys;
            let wyp: i64 = (500 + dys) * (500 + dys);
            proof {
                assert(wxm as int == w_axis(dshift_x(p), -1));
                assert(wx0 as int == w_axis(dshift_x(p), 0));
                assert(wxp as int == w_axis(dshift_x(p), 1));
                assert(wym as int == w_axis(dshift_y(p), -1));
                assert(wy0 as int == w_axis(dshift_y(p), 0));
                assert(wyp as int == w_axis(dshift_y(p), 1));
            }
            let mut k: usize = 0;
            while k < 9
                invariant
                    self.wf(),
                    np == self.particles.len(),
                    pi < np,
                    k <= 9,
                    grid@.len() == self.num_cells,
                    xs == self.x_size as int,
                    ys == self.y_size as int,
                    p == self.particles@[pi as int],
                    particle_ok(p, xs, ys),
                    cx as int == cell_col(p),
                    cy as int == cell_row(p),
                    fx as int == frac_x(p),
                    fy as int == frac_y(p),
                    dxs as int == dshift_x(p),
                    dys as int == dshift_y(p),
                    wxm as int == w_axis(dshift_x(p), -1),
                    wx0 as int == w_axis(dshift_x(p), 0),
                    wxp as int == w_axis(dshift_x(p), 1),
                    wym as int == w_axis(dshift_y(p), -1),
                    wy0 as int == w_axis(dshift_y(p), 0),
                    wyp as int == w_axis(dshift_y(p), 1),
                    gview(grid@) == scatter_upto(
                        p2g_upto(self.particles@, xs, ys, pi as int),
                        p,
                        xs,
                        k as int,
                    ),
                    forall|j: int|
                        0 <= j < grid@.len() ==> 0 <= #[trigger] grid@[j].mass <= (9 * (pi as int)
                            + k as int) * MC_MAX,
                    forall|j: int|
                        0 <= j < grid@.len() ==> -(grid@[j].mass * VQ_BOUND)
                            <= #[trigger] grid@[j].velocity_x <= grid@[j].mass * VQ_BOUND,
                    forall|j: int|
                        0 <= j < grid@.len() ==> -(grid@[j].mass * VQ_BOUND)
                            <= #[trigger] grid@[j].velocity_y <= grid@[j].mass * VQ_BOUND,
                decreases 9 - k,
            {
                proof {
                    lemma_particle_geometry(p, xs, ys);
                    lemma_weight_facts(dshift_x(p));
                    lemma_weight_facts(dshift_y(p));
                    vstd::arithmetic::div_mod::lemma_mod_division_less_than_divisor(k as int, 3);
                    vstd::arithmetic::div_mod::lemma_div_is_ordered(k as int, 8, 3);
                }
                let ox: usize = k % 3;
                let oy: usize = k / 3;
                let gxc: usize = cx - 1 + ox;
                let gyc: usize = cy - 1 + oy;
                proof {
                    assert(ox as int == off_col(k as int) + 1);
                    assert(oy as int == off_row(k as int) + 1);
                    lemma_row_major_bound(gyc as int, gxc as int, xs, ys);
                    assert(gyc as int * xs + gxc as int == target(p, k as int, xs));
                }
                let idx: usize = gyc * self.x_size + gxc;
                let wx: i64 = if ox == 0 {
                    wxm
                } else if ox == 1 {
                    wx0
                } else {
                    wxp
                };
                let wy: i64 = if oy == 0 {
                    wym
                } else if oy == 1 {
                    wy0
                } else {
                    wyp
                };
                proof {
                    assert(wx as int == w_axis(dshift_x(p), off_col(k as int)));
                    assert(wy as int == w_axis(dshift_y(p), off_row(k as int)));
                    lemma_mul_nonneg_bound(wx as int, wy as int, 1_500_000, 1_500_000);
                }
                let w: i64 = wx * wy;
                proof {
                    assert(w as int == weight(p, k as int));
                    lemma_mul_nonneg_bound(w as int, p.mass as int, W2_MAX as int, MASS_CAP as int);
                }
                let mc: i64 = w * p.mass;
                let distx: i64 = (ox as i64) * 1000 - 500 - fx as i64;
                let disty: i64 = (oy as i64) * 1000 - 500 - fy as i64;
                proof {
                    assert(distx as int == dist_x(p, k as int));
                    assert(disty as int == dist_y(p, k as int));
                    lemma_mul_bound(p.momentum.xx as int, distx as int, VEL_CAP as int, 1500);
                    lemma_mul_bound(p.momentum.xy as int, disty as int, VEL_CAP as int, 1500);
                    lemma_mul_bound(p.momentum.yx as int, distx as int, VEL_CAP as int, 1500);
                    lemma_mul_bound(p.momentum.yy as int, disty as int, VEL_CAP as int, 1500);
                }
                let qxn: i64 = p.momentum.xx * distx + p.momentum.xy * disty;
                let qyn: i64 = p.momentum.yx * distx + p.momentum.yy * disty;
                proof {
                    lemma_div_tz_bound(qxn as int, 1000, 3_000_000_000);
                    lemma_div_tz_bound(qyn as int, 1000, 3_000_000_000);
                }
                let qx: i64 = div_q64(qxn, 1000);
                let qy: i64 = div_q64(qyn, 1000);
                let vqx: i64 = p.velocity.x + qx;
                let vqy: i64 = p.velocity.y + qy;
                let c = grid[idx];
                let ghost gprev = grid@;
                proof {
                    lemma_mul_le_scale(vqx as int, mc as int, VQ_BOUND as int);
                    lemma_mul_le_scale(vqy as int, mc as int, VQ_BOUND as int);
                    assert(0 <= mc as int <= MC_MAX as int);
                }
                let nm: i128 = c.mass + mc as i128;
                let nvx: i128 = c.velocity_x + (vqx as i128) * (mc as i128);
                let nvy: i128 = c.velocity_y + (vqy as i128) * (mc as i128);
                grid.set(idx, Cell { velocity_x: nvx, velocity_y: nvy, mass: nm });
                proof {
                    assert(vqx as int == p.velocity.x + apic_x(p, k as int));
                    assert(vqy as int == p.velocity.y + apic_y(p, k as int));
                    assert(gview(grid@) =~= scatter_upto(
                        p2g_upto(self.particles@, xs, ys, pi as int),
                        p,
                        xs,
                        k as int + 1,
                    ));
                }
                k += 1;
            }
            proof {
                assert(gview(grid@) == p2g_upto(self.particles@, xs, ys, pi as int + 1));
            }
            pi += 1;
        }
        grid
    }

    /// Grid velocity update: accumulated momentum becomes velocity, the
    /// per-step gravity impulse is applied, and velocity components are
    /// zeroed in the two-cell wall margin.  Cells without mass are left
    /// untouched.
    pub fn resolve_grid(&self, g: &mut Vec<Cell>)
        requires
            self.wf(),
            old(g)@.len() == self.num_cells,
            forall|j: int|
                0 <= j < old(g)@.len() ==> 0 <= #[trigger] old(g)@[j].mass <= 9 * (N_CAP as int)
                    * MC_MAX,
            forall|j: int|
                0 <= j < old(g)@.len() ==> -(old(g)@[j].mass * VQ_BOUND)
                    <= #[trigger] old(g)@[j].velocity_x <= old(g)@[j].mass * VQ_BOUND,
            forall|j: int|
                0 <= j < old(g)@.len() ==> -(old(g)@[j].mass * VQ_BOUND)
                    <= #[trigger] old(g)@[j].velocity_y <= old(g)@[j].mass * VQ_BOUND,
        ensures
            final(g)@.len() == old(g)@.len(),
            gview(final(g)@) == resolve_all(
                gview(old(g)@),
                self.x_size as int,
                self.y_size as int,
                self.gravity_times_dt.x as int,
                self.gravity_times_dt.y as int,
            ),
            forall|j: int|
                0 <= j < final(g)@.len() ==> -GV_BOUND <= #[trigger] final(g)@[j].velocity_x
                    <= GV_BOUND,
            forall|j: int|
                0 <= j < final(g)@.len() ==> -GV_BOUND <= #[trigger] final(g)@[j].velocity_y
                    <= GV_BOUND,
    {
        let ghost xs = self.x_size as int;
        let ghost ys = self.y_size as int;
        let ghost gx = self.gravity_times_dt.x as int;
        let ghost gy = self.gravity_times_dt.y as int;
        let ghost g0 = g@;
        let n = g.len();
        let mut i: usize = 0;
        while i < n
            invariant
                self.wf(),
                xs == self.x_size as int,
                ys == self.y_size as int,
                gx == self.gravity_times_dt.x as int,
                gy == self.gravity_times_dt.y as int,
                i <= n,
                n == g@.len(),
                n == self.num_cells,
                g@.len() == g0.len(),
                forall|j: int|
                    0 <= j < g0.len() ==> 0 <= #[trigger] g0[j].mass <= 9 * (N_CAP as int)
                        * MC_MAX,
                forall|j: int|
                    0 <= j < g0.len() ==> -(g0[j].mass * VQ_BOUND) <= #[trigger] g0[j].velocity_x
                        <= g0[j].mass * VQ_BOUND,
                forall|j: int|
                    0 <= j < g0.len() ==> -(g0[j].mass * VQ_BOUND) <= #[trigger] g0[j].velocity_y
                        <= g0[j].mass * VQ_BOUND,
                forall|j: int| i <= j < n ==> #[trigger] g@[j] == g0[j],
                forall|j: int|
                    0 <= j < i ==> cell_m(#[trigger] g@[j]) == resolve_cell(
                        cell_m(g0[j]),
                        j,
                        xs,
                        ys,
                        gx,
                        gy,
                    ),
                forall|j: int|
                    0 <= j < i ==> -GV_BOUND <= #[trigger] g@[j].velocity_x <= GV_BOUND,
                forall|j: int|
                    0 <= j < i ==> -GV_BOUND <= #[trigger] g@[j].velocity_y <= GV_BOUND,
            decreases n - i,
        {
            let c = g[i];
            if c.mass > 0 {
                proof {
                    lemma_div_tz_bound(c.velocity_x as int, c.mass as int, VQ_BOUND as int);
                    lemma_div_tz_bound(c.velocity_y as int, c.mass as int, VQ_BOUND as int);
                }
                let vx0: i128 = div_q128(c.velocity_x, c.mass);
                let vy0: i128 = div_q128(c.velocity_y, c.mass);
                let vx1: i128 = vx0 + self.gravity_times_dt.x as i128;
                let vy1: i128 = vy0 + self.gravity_times_dt.y as i128;
                proof {
                    vstd::arithmetic::div_mod::lemma_mod_division_less_than_divisor(i as int, xs);
                    vstd::arithmetic::div_mod::lemma_multiply_divide_lt(i as int, xs, ys);
                }
                let col: usize = i % self.x_size;
                let row: usize = i / self.x_size;
                let vx2: i128 = if col < 2 || col + 3 > self.x_size {
                    0
                } else {
                    vx1
                };
                let vy2: i128 = if row < 2 || row + 3 > self.y_size {
                    0
                } else {
                    vy1
                };
                g.set(i, Cell { velocity_x: vx2, velocity_y: vy2, mass: c.mass });
                proof {
                    assert(col as int == (i as int) % xs);
                    assert(row as int == (i as int) / xs);
                    assert(cell_m(g@[i as int]) == resolve_cell(
                        cell_m(g0[i as int]),
                        i as int,
                        xs,
                        ys,
                        gx,
                        gy,
                    ));
                }
            } else {
                proof {
                    assert(c.mass == 0);
                    assert(cell_m(g@[i as int]) == resolve_cell(
                        cell_m(g0[i as int]),
                        i as int,
                        xs,
                        ys,
                        gx,
                        gy,
                    ));
                }
            }
            i += 1;
        }
        proof {
            assert(gview(g@) =~= resolve_all(gview(g0), xs, ys, gx, gy));
        }
    }

    /// Grid-to-particle transfer: every particle gathers the interpolated
    /// velocity and its affine velocity matrix from the resolved grid,
    /// is advected by `velocity * dt`, and is clamped back into the
    /// domain `[SCALE, (size - 2) * SCALE]`.
    #[verifier::rlimit(100)]
    pub fn apply_grid(&mut self, g: &Vec<Cell>)
        requires
            old(self).wf(),
            g@.len() == old(self).num_cells,
            forall|j: int|
                0 <= j < g@.len() ==> -GV_BOUND <= #[trigger] g@[j].velocity_x <= GV_BOUND,
            forall|j: int|
                0 <= j < g@.len() ==> -GV_BOUND <= #[trigger] g@[j].velocity_y <= GV_BOUND,
        ensures
            final(self).wf(),
            final(self).x_size == old(self).x_size,
            final(self).y_size == old(self).y_size,
            final(self).num_cells == old(self).num_cells,
            final(self).gravity_times_dt == old(self).gravity_times_dt,
            final(self).dt == old(self).dt,
            final(self).steps_run == old(self).steps_run,
            final(self).particles@ == Seq::new(
                old(self).particles@.len(),
                |i: int|
                    g2p_one(
                        old(self).particles@[i],
                        gview(g@),
                        old(self).x_size as int,
                        old(self).y_size as int,
                        old(self).dt as int,
                    ),
            ),
    {
        let ghost ps0 = self.particles@;
        let ghost xs = self.x_size as int;
        let ghost ys = self.y_size as int;
        let ghost dtg = self.dt as int;
        let np = self.particles.len();
        let mut pi: usize = 0;
        while pi < np
            invariant
                self.x_size == old(self).x_size,
                self.y_size == old(self).y_size,
                self.num_cells == old(self).num_cells,
                self.gravity_times_dt == old(self).gravity_times_dt,
                self.dt == old(self).dt,
                self.steps_run == old(self).steps_run,
                old(self).wf(),
                np == self.particles.len(),
                ps0 == old(self).particles@,
                ps0.len() == np,
                pi <= np,
                xs == self.x_size as int,
                ys == self.y_size as int,
                dtg == self.dt as int,
                g@.len() == self.num_cells,
                forall|j: int|
                    0 <= j < g@.len() ==> -GV_BOUND <= #[trigger] g@[j].velocity_x <= GV_BOUND,
                forall|j: int|
                    0 <= j < g@.len() ==> -GV_BOUND <= #[trigger] g@[j].velocity_y <= GV_BOUND,
                forall|j: int| pi <= j < np ==> #[trigger] self.particles@[j] == ps0[j],
                forall|j: int|
                    0 <= j < pi ==> #[trigger] self.particles@[j] == g2p_one(
                        ps0[j],
                        gview(g@),
                        xs,
                        ys,
                        dtg,
                    ),
                forall|j: int|
                    0 <= j < pi ==> particle_ok(#[trigger] self.particles@[j], xs, ys),
            decreases np - pi,
        {
            let p = self.particles[pi];
            proof {
                assert(p == ps0[pi as int]);
                assert(particle_ok(p, xs, ys));
                lemma_particle_geometry(p, xs, ys);
                lemma_weight_facts(dshift_x(p));
                lemma_weight_facts(dshift_y(p));
            }
            let pux: usize = p.position.x as usize;
            let puy: usize = p.position.y as usize;
            let cx: usize = pux / 1000;
            let cy: usize = puy / 1000;
            let fx: usize = pux % 1000;
            let fy: usize = puy % 1000;
            let dxs: i64 = fx as i64 - 500;
            let dys: i64 = fy as i64 - 500;
            let wxm: i64 = (500 - dxs) * (500 - dxs);
            let wx0: i64 = 1_500_000 - 2 * dxs * dxs;
            let wxp: i64 = (500 + dxs) * (500 + dxs);
            let wym: i64 = (500 - dys) * (500 - dys);
            let wy0: i64 = 1_500_000 - 2 * dys * dys;
            let wyp: i64 = (500 + dys) * (500 + dys);
            proof {
                assert(wxm as int == w_axis(dshift_x(p), -1));
                assert(wx0 as int == w_axis(dshift_x(p), 0));
                assert(wxp as int == w_axis(dshift_x(p), 1));
                assert(wym as int == w_axis(dshift_y(p), -1));
                assert(wy0 as int == w_axis(dshift_y(p), 0));
                assert(wyp as int == w_axis(dshift_y(p), 1));
            }
            let mut avx: i128 = 0;
            let mut avy: i128 = 0;
            let mut abxx: i128 = 0;
            let mut abxy: i128 = 0;
            let mut abyx: i128 = 0;
            let mut abyy: i128 = 0;
            let mut k: usize = 0;
            while k < 9
                invariant
                    old(self).wf(),
                    k <= 9,
                    xs == self.x_size as int,
                    ys == self.y_size as int,
                    g@.len() == self.num_cells,
                    self.x_size == old(self).x_size,
                    self.y_size == old(self).y_size,
                    self.num_cells == old(self).num_cells,
                    particle_ok(p, xs, ys),
                    cx as int == cell_col(p),
                    cy as int == cell_row(p),
                    fx as int == frac_x(p),
                    fy as int == frac_y(p),
                    dxs as int == dshift_x(p),
                    dys as int == dshift_y(p),
                    wxm as int == w_axis(dshift_x(p), -1),
                    wx0 as int == w_axis(dshift_x(p), 0),
                    wxp as int == w_axis(dshift_x(p), 1),
                    wym as int == w_axis(dshift_y(p), -1),
                    wy0 as int == w_axis(dshift_y(p), 0),
                    wyp as int == w_axis(dshift_y(p), 1),
                    forall|j: int|
                        0 <= j < g@.len() ==> -GV_BOUND <= #[trigger] g@[j].velocity_x <= GV_BOUND,
                    forall|j: int|
                        0 <= j < g@.len() ==> -GV_BOUND <= #[trigger] g@[j].velocity_y <= GV_BOUND,
                    avx as int == gather_upto(p, gview(g@), xs, k as int).0,
                    avy as int == gather_upto(p, gview(g@), xs, k as int).1,
                    abxx as int == gather_upto(p, gview(g@), xs, k as int).2,
                    abxy as int == gather_upto(p, gview(g@), xs, k as int).3,
                    abyx as int == gather_upto(p, gview(g@), xs, k as int).4,
                    abyy as int == gather_upto(p, gview(g@), xs, k as int).5,
                    -((k as int) * 11_250_000_000_000_000_000_000) <= avx as int <= (k as int)
                        * 11_250_000_000_000_000_000_000,
                    -((k as int) * 11_250_000_000_000_000_000_000) <= avy as int <= (k as int)
                        * 11_250_000_000_000_000_000_000,
                    -((k as int) * 16_875_000_000_000_000_000_000_000) <= abxx as int <= (k as int)
                        * 16_875_000_000_000_000_000_000_000,
                    -((k as int) * 16_875_000_000_000_000_000_000_000) <= abxy as int <= (k as int)
                        * 16_875_000_000_000_000_000_000_000,
                    -((k as int) * 16_875_000_000_000_000_000_000_000) <= abyx as int <= (k as int)
                        * 16_875_000_000_000_000_000_000_000,
                    -((k as int) * 16_875_000_000_000_000_000_000_000) <= abyy as int <= (k as int)
                        * 16_875_000_000_000_000_000_000_000,
                decreases 9 - k,
            {
                proof {
                    lemma_particle_geometry(p, xs, ys);
                    lemma_weight_facts(dshift_x(p));
                    lemma_weight_facts(dshift_y(p));
                    vstd::arithmetic::div_mod::lemma_mod_division_less_than_divisor(k as int, 3);
                    vstd::arithmetic::div_mod::lemma_div_is_ordered(k as int, 8, 3);
                }
                let ox: usize = k % 3;
                let oy: usize = k / 3;
                let gxc: usize = cx - 1 + ox;
                let gyc: usize = cy - 1 + oy;
                proof {
                    assert(ox as int == off_col(k as int) + 1);
                    assert(oy as int == off_row(k as int) + 1);
                    lemma_row_major_bound(gyc as int, gxc as int, xs, ys);
                    assert(gyc as int * xs + gxc as int == target(p, k as int, xs));
                }
                let idx: usize = gyc * self.x_size + gxc;
                let wx: i64 = if ox == 0 {
                    wxm
                } else if ox == 1 {
                    wx0
                } else {
                    wxp
                };
                let wy: i64 = if oy == 0 {
                    wym
                } else if oy == 1 {
                    wy0
                } else {
                    wyp
                };
                proof {
                    assert(wx as int == w_axis(dshift_x(p), off_col(k as int)));
                    assert(wy as int == w_axis(dshift_y(p), off_row(k as int)));
                    lemma_mul_nonneg_bound(wx as int, wy as int, 1_500_000, 1_500_000);
                }
                let w: i64 = wx * wy;
                let distx: i64 = (ox as i64) * 1000 - 500 - fx as i64;
                let disty: i64 = (oy as i64) * 1000 - 500 - fy as i64;
                let c = g[idx];
                proof {
                    assert(w as int == weight(p, k as int));
                    assert(distx as int == dist_x(p, k as int));
                    assert(disty as int == dist_y(p, k as int));
                    lemma_mul_bound(w as int, c.velocity_x as int, W2_MAX as int, GV_BOUND as int);
                    lemma_mul_bound(w as int, c.velocity_y as int, W2_MAX as int, GV_BOUND as int);
                }
                let wvx: i128 = (w as i128) * c.velocity_x;
                let wvy: i128 = (w as i128) * c.velocity_y;
                proof {
                    lemma_mul_bound(wvx as int, distx as int, 11_250_000_000_000_000_000_000, 1500);
                    lemma_mul_bound(wvx as int, disty as int, 11_250_000_000_000_000_000_000, 1500);
                    lemma_mul_bound(wvy as int, distx as int, 11_250_000_000_000_000_000_000, 1500);
                    lemma_mul_bound(wvy as int, disty as int, 11_250_000_000_000_000_000_000, 1500);
                }
                let tbxx: i128 = wvx * (distx as i128);
                let tbxy: i128 = wvx * (disty as i128);
                let tbyx: i128 = wvy * (distx as i128);
                let tbyy: i128 = wvy * (disty as i128);
                avx = avx + wvx;
                avy = avy + wvy;
                abxx = abxx + tbxx;
                abxy = abxy + tbxy;
                abyx = abyx + tbyx;
                abyy = abyy + tbyy;
                proof {
                    assert(cell_m(g@[target(p, k as int, xs)]).1 == c.velocity_x as int);
                    assert(cell_m(g@[target(p, k as int, xs)]).2 == c.velocity_y as int);
                    assert(avx as int == gather_upto(p, gview(g@), xs, k as int + 1).0);
                    assert(avy as int == gather_upto(p, gview(g@), xs, k as int + 1).1);
                    assert(abxx as int == gather_upto(p, gview(g@), xs, k as int + 1).2);
                    assert(abxy as int == gather_upto(p, gview(g@), xs, k as int + 1).3);
                    assert(abyx as int == gather_upto(p, gview(g@), xs, k as int + 1).4);
                    assert(abyy as int == gather_upto(p, gview(g@), xs, k as int + 1).5);
                }
                k += 1;
            }
            let vx: i64 = clamp_q128(
                div_q128(avx, WDEN2 as i128),
                -(VEL_CAP as i128),
                VEL_CAP as i128,
            ) as i64;
            let vy: i64 = clamp_q128(
                div_q128(avy, WDEN2 as i128),
                -(VEL_CAP as i128),
                VEL_CAP as i128,
            ) as i64;
            let bxx: i64 = clamp_q128(
                div_q128(abxx, MDEN as i128),
                -(VEL_CAP as i128),
                VEL_CAP as i128,
            ) as i64;
            let bxy: i64 = clamp_q128(
                div_q128(abxy, MDEN as i128),
                -(VEL_CAP as i128),
                VEL_CAP as i128,
            ) as i64;
            let byx: i64 = clamp_q128(
                div_q128(abyx, MDEN as i128),
                -(VEL_CAP as i128),
                VEL_CAP as i128,
            ) as i64;
            let byy: i64 = clamp_q128(
                div_q128(abyy, MDEN as i128),
                -(VEL_CAP as i128),
                VEL_CAP as i128,
            ) as i64;
            proof {
                lemma_mul_bound(vx as int, self.dt as int, VEL_CAP as int, DT_CAP as int);
                lemma_mul_bound(vy as int, self.dt as int, VEL_CAP as int, DT_CAP as int);
                lemma_div_tz_bound(
                    (vx as int) * (self.dt as int),
                    1000,
                    1_000_000_000_000,
                );
                lemma_div_tz_bound(
                    (vy as int) * (self.dt as int),
                    1000,
                    1_000_000_000_000,
                );
            }
            let mvx: i128 = div_q128((vx as i128) * (self.dt as i128), 1000);
            let mvy: i128 = div_q128((vy as i128) * (self.dt as i128), 1000);
            let hix: i128 = ((self.x_size as i128) - 2) * 1000;
            let hiy: i128 = ((self.y_size as i128) - 2) * 1000;
            let px: i64 = clamp_q128((p.position.x as i128) + mvx, 1000, hix) as i64;
            let py: i64 = clamp_q128((p.position.y as i128) + mvy, 1000, hiy) as i64;
            let pnew = Particle2D {
                position: FxVec2 { x: px, y: py },
                velocity: FxVec2 { x: vx, y: vy },
                momentum: FxMat2 { xx: bxx, xy: bxy, yx: byx, yy: byy },
                mass: p.mass,
            };
            proof {
                assert(pnew == g2p_one(ps0[pi as int], gview(g@), xs, ys, dtg));
                assert(particle_ok(pnew, xs, ys));
            }
            self.particles.set(pi, pnew);
            pi += 1;
        }
        proof {
            assert(self.particles@ =~= Seq::new(
                ps0.len(),
                |i: int| g2p_one(ps0[i], gview(g@), xs, ys, dtg),
            ));
        }
    }

    /// Advance the simulation by one time step: scatter the particles
    /// onto a fresh grid, resolve the grid velocities, gather back to
    /// the particles with advection and the domain clamp, and count the
    /// step.  The resulting particle set is exactly `step_particles` of
    /// the old state.
    pub fn step(&mut self)
        requires
            old(self).wf(),
            old(self).steps_run < usize::MAX,
        ensures
            final(self).wf(),
            final(self).x_size == old(self).x_size,
            final(self).y_size == old(self).y_size,
            final(self).num_cells == old(self).num_cells,
            final(self).gravity_times_dt == old(self).gravity_times_dt,
            final(self).dt == old(self).dt,
            final(self).steps_run == old(self).steps_run + 1,
            final(self).particles@ == step_particles(
                old(self).particles@,
                old(self).x_size as int,
                old(self).y_size as int,
                old(self).gravity_times_dt.x as int,
                old(self).gravity_times_dt.y as int,
                old(self).dt as int,
            ),
    {
        let ghost ps0 = self.particles@;
        let ghost xs = self.x_size as int;
        let ghost ys = self.y_size as int;
        let ghost gx = self.gravity_times_dt.x as int;
        let ghost gy = self.gravity_times_dt.y as int;
        let ghost dtg = self.dt as int;
        let mut grid = self.build_grid();
        proof {
            assert(forall|j: int|
                0 <= j < grid@.len() ==> 0 <= #[trigger] grid@[j].mass <= 9 * (N_CAP as int)
                    * MC_MAX);
        }
        self.resolve_grid(&mut grid);
        self.apply_grid(&grid);
        self.steps_run = self.steps_run + 1;
        proof {
            assert(self.particles@ =~= step_particles(ps0, xs, ys, gx, gy, dtg));
        }
    }
}

} // verus!
