//! Global properties of the step, stated and proved over the model.

use crate::arith::clamp_i;
use crate::arith::div_tz;
use crate::arith::lemma_div_tz_exact;
use crate::arith::lemma_div_tz_zero;
use crate::arith::lemma_mul_nonneg_bound;
use crate::model::apic_x;
use crate::model::apic_y;
use crate::model::AXIS_CAP;
use crate::model::cell_col;
use crate::model::cell_row;
use crate::model::dshift_x;
use crate::model::dshift_y;
use crate::model::g2p_one;
use crate::model::gather_upto;
use crate::model::lemma_particle_geometry;
use crate::model::lemma_row_major_bound;
use crate::model::lemma_weight_facts;
use crate::model::off_col;
use crate::model::off_row;
use crate::model::p2g;
use crate::model::p2g_upto;
use crate::model::particle_ok;
use crate::model::resolve_all;
use crate::model::resolve_cell;
use crate::model::scatter_upto;
use crate::model::step_particles;
use crate::model::target;
use crate::model::w_axis;
use crate::model::weight;
use crate::model::zero_grid;
use crate::model::MASS_CAP;
use crate::model::VEL_CAP;
use crate::model::W2_MAX;
use crate::model::WDEN2;
use crate::sim::Particle2D;
use vstd::arithmetic::div_mod::lemma_div_is_ordered;
use vstd::arithmetic::div_mod::lemma_div_pos_is_pos;
use vstd::arithmetic::div_mod::lemma_mod_division_less_than_divisor;
use vstd::prelude::*;

verus! {

/// Sum of the mass entries of a model grid.
pub open spec fn grid_mass(g: Seq<(int, int, int)>) -> int
    decreases g.len(),
{
    if g.len() == 0 {
        0
    } else {
        grid_mass(g.drop_last()) + g.last().0
    }
}

/// Sum of the particle masses, in `SCALE` units.
pub open spec fn total_mass(ps: Seq<Particle2D>) -> int
    decreases ps.len(),
{
    if ps.len() == 0 {
        0
    } else {
        total_mass(ps.drop_last()) + ps.last().mass
    }
}

/// Sum of the first `k` stencil weight numerators of a particle.
pub open spec fn wsum(p: Particle2D, k: int) -> int
    decreases k,
{
    if k <= 0 {
        0
    } else {
        wsum(p, k - 1) + weight(p, k - 1)
    }
}

/// Updating one cell moves the grid mass sum by the mass difference.
proof fn lemma_grid_mass_update(g: Seq<(int, int, int)>, i: int, v: (int, int, int))
    requires
        0 <= i < g.len(),
    ensures
        grid_mass(g.update(i, v)) == grid_mass(g) - g[i].0 + v.0,
    decreases g.len(),
{
    let gu = g.update(i, v);
    if i == g.len() - 1 {
        assert(gu.drop_last() =~= g.drop_last());
    } else {
        assert(gu.drop_last() =~= g.drop_last().update(i, v));
        lemma_grid_mass_update(g.drop_last(), i, v);
    }
}

/// The zero grid carries no mass.
proof fn lemma_zero_grid_mass(n: int)
    requires
        0 <= n,
    ensures
        grid_mass(zero_grid(n)) == 0,
    decreases n,
{
    if n > 0 {
        assert(zero_grid(n).drop_last() =~= zero_grid(n - 1));
        lemma_zero_grid_mass(n - 1);
    }
}

/// The stencil offsets of slot `k` are in `{-1, 0, 1}`, so the target
/// cell of an in-range particle is inside the grid.
proof fn lemma_target_in_range(p: Particle2D, xs: int, ys: int, k: int)
    requires
        particle_ok(p, xs, ys),
        5 <= xs,
        5 <= ys,
        0 <= k < 9,
    ensures
        0 <= target(p, k, xs) < xs * ys,
{
    lemma_particle_geometry(p, xs, ys);
    lemma_mod_division_less_than_divisor(k, 3);
    lemma_div_pos_is_pos(k, 3);
    lemma_div_is_ordered(k, 8, 3);
    lemma_row_major_bound(cell_row(p) + off_row(k), cell_col(p) + off_col(k), xs, ys);
}

/// Scattering the first `k` contributions of one particle adds exactly
/// `wsum(p, k) * mass` to the grid mass sum.
proof fn lemma_scatter_mass(g: Seq<(int, int, int)>, p: Particle2D, xs: int, ys: int, k: int)
    requires
        g.len() == xs * ys,
        5 <= xs,
        5 <= ys,
        particle_ok(p, xs, ys),
        0 <= k <= 9,
    ensures
        scatter_upto(g, p, xs, k).len() == g.len(),
        grid_mass(scatter_upto(g, p, xs, k)) == grid_mass(g) + wsum(p, k) * p.mass,
    decreases k,
{
    if k > 0 {
        lemma_scatter_mass(g, p, xs, ys, k - 1);
        let g0 = scatter_upto(g, p, xs, k - 1);
        lemma_target_in_range(p, xs, ys, k - 1);
        lemma_grid_mass_update(
            g0,
            target(p, k - 1, xs),
            (
                g0[target(p, k - 1, xs)].0 + weight(p, k - 1) * p.mass as int,
                g0[target(p, k - 1, xs)].1 + (p.velocity.x + apic_x(p, k - 1)) * (weight(p, k - 1)
                    * p.mass as int),
                g0[target(p, k - 1, xs)].2 + (p.velocity.y + apic_y(p, k - 1)) * (weight(p, k - 1)
                    * p.mass as int),
            ),
        );
        assert((wsum(p, k - 1) + weight(p, k - 1)) * p.mass as int == wsum(p, k - 1) * p.mass as int
            + weight(p, k - 1) * p.mass as int) by (nonlinear_arith);
    }
}

/// The nine 2D weight numerators of a particle sum to exactly `WDEN2`:
/// the separable quadratic B-spline kernel is a partition of unity.
proof fn lemma_wsum_total(p: Particle2D)
    requires
        -500 <= dshift_x(p) <= 499,
        -500 <= dshift_y(p) <= 499,
    ensures
        wsum(p, 9) == WDEN2,
{
    let a = dshift_x(p);
    let b = dshift_y(p);
    lemma_weight_facts(a);
    lemma_weight_facts(b);
    assert(wsum(p, 9) == w_axis(a, -1) * w_axis(b, -1) + w_axis(a, 0) * w_axis(b, -1) + w_axis(
        a,
        1,
    ) * w_axis(b, -1) + w_axis(a, -1) * w_axis(b, 0) + w_axis(a, 0) * w_axis(b, 0) + w_axis(a, 1)
        * w_axis(b, 0) + w_axis(a, -1) * w_axis(b, 1) + w_axis(a, 0) * w_axis(b, 1) + w_axis(a, 1)
        * w_axis(b, 1)) by {
        reveal_with_fuel(wsum, 10);
    };
    assert(w_axis(a, -1) * w_axis(b, -1) + w_axis(a, 0) * w_axis(b, -1) + w_axis(a, 1) * w_axis(
        b,
        -1,
    ) + w_axis(a, -1) * w_axis(b, 0) + w_axis(a, 0) * w_axis(b, 0) + w_axis(a, 1) * w_axis(b, 0)
        + w_axis(a, -1) * w_axis(b, 1) + w_axis(a, 0) * w_axis(b, 1) + w_axis(a, 1) * w_axis(b, 1)
        == 4_000_000_000_000) by (nonlinear_arith)
        requires
            w_axis(a, -1) + w_axis(a, 0) + w_axis(a, 1) == 2_000_000,
            w_axis(b, -1) + w_axis(b, 0) + w_axis(b, 1) == 2_000_000,
    ;
}

proof fn lemma_mass_upto(ps: Seq<Particle2D>, xs: int, ys: int, n: int)
    requires
        5 <= xs,
        5 <= ys,
        0 <= n <= ps.len(),
        forall|i: int| 0 <= i < ps.len() ==> particle_ok(#[trigger] ps[i], xs, ys),
    ensures
        p2g_upto(ps, xs, ys, n).len() == xs * ys,
        grid_mass(p2g_upto(ps, xs, ys, n)) == WDEN2 * total_mass(ps.take(n)),
    decreases n,
{
    if n == 0 {
        assert(0 <= xs * ys) by (nonlinear_arith)
            requires
                5 <= xs,
                5 <= ys,
        ;
        lemma_zero_grid_mass(xs * ys);
        assert(ps.take(0).len() == 0);
    } else {
        lemma_mass_upto(ps, xs, ys, n - 1);
        lemma_scatter_mass(p2g_upto(ps, xs, ys, n - 1), ps[n - 1], xs, ys, 9);
        lemma_particle_geometry(ps[n - 1], xs, ys);
        lemma_wsum_total(ps[n - 1]);
        assert(ps.take(n).drop_last() =~= ps.take(n - 1));
        assert(ps.take(n).last() == ps[n - 1]);
        let t1 = total_mass(ps.take(n - 1));
        let m = ps[n - 1].mass as int;
        assert(total_mass(ps.take(n)) == t1 + m);
        assert(wsum(ps[n - 1], 9) * m == WDEN2 * m);
        assert(grid_mass(p2g_upto(ps, xs, ys, n)) == WDEN2 * t1 + WDEN2 * m);
        assert(WDEN2 * (t1 + m) == WDEN2 * t1 + WDEN2 * m) by (nonlinear_arith);
    }
}

/// Mass conservation of P2G: the grid mass sum after scattering every
/// particle is exactly `WDEN2` times the total particle mass -- the
/// transfer redistributes mass without losing or creating any.
pub proof fn lemma_mass_conservation(ps: Seq<Particle2D>, xs: int, ys: int)
    requires
        5 <= xs,
        5 <= ys,
        forall|i: int| 0 <= i < ps.len() ==> particle_ok(#[trigger] ps[i], xs, ys),
    ensures
        grid_mass(p2g(ps, xs, ys)) == WDEN2 * total_mass(ps),
{
    lemma_mass_upto(ps, xs, ys, ps.len() as int);
    assert(ps.take(ps.len() as int) =~= ps);
}

/// A particle at rest with a zero affine matrix scatters no momentum:
/// the velocity entries of the grid are untouched.
proof fn lemma_scatter_still(g: Seq<(int, int, int)>, p: Particle2D, xs: int, ys: int, k: int)
    requires
        g.len() == xs * ys,
        5 <= xs,
        5 <= ys,
        particle_ok(p, xs, ys),
        0 <= k <= 9,
        p.velocity.x == 0,
        p.velocity.y == 0,
        p.momentum.xx == 0,
        p.momentum.xy == 0,
        p.momentum.yx == 0,
        p.momentum.yy == 0,
    ensures
        scatter_upto(g, p, xs, k).len() == g.len(),
        forall|j: int|
            0 <= j < g.len() ==> (#[trigger] scatter_upto(g, p, xs, k)[j]).1 == g[j].1
                && scatter_upto(g, p, xs, k)[j].2 == g[j].2,
    decreases k,
{
    if k > 0 {
        lemma_scatter_still(g, p, xs, ys, k - 1);
        lemma_target_in_range(p, xs, ys, k - 1);
        lemma_div_tz_zero(1000);
        assert(apic_x(p, k - 1) == 0);
        assert(apic_y(p, k - 1) == 0);
        let s0 = scatter_upto(g, p, xs, k - 1);
        let s1 = scatter_upto(g, p, xs, k);
        let t = target(p, k - 1, xs);
        let mc = weight(p, k - 1) * p.mass as int;
        assert(s1 == s0.update(t, (s0[t].0 + mc, s0[t].1 + 0 * mc, s0[t].2 + 0 * mc)));
        assert forall|j: int| 0 <= j < g.len() implies (#[trigger] s1[j]).1 == g[j].1 && s1[j].2
            == g[j].2 by {
            assert(s0[j].1 == g[j].1 && s0[j].2 == g[j].2);
            if j == t {
                assert(s1[j].1 == s0[j].1 + 0 * mc);
                assert(s1[j].2 == s0[j].2 + 0 * mc);
            } else {
                assert(s1[j] == s0[j]);
            }
        };
    }
}

/// A particle set at rest scatters a grid whose velocity entries are
/// all zero.
proof fn lemma_p2g_still(ps: Seq<Particle2D>, xs: int, ys: int, n: int)
    requires
        5 <= xs,
        5 <= ys,
        0 <= n <= ps.len(),
        forall|i: int| 0 <= i < ps.len() ==> particle_ok(#[trigger] ps[i], xs, ys),
        forall|i: int|
            0 <= i < ps.len() ==> (#[trigger] ps[i]).velocity.x == 0 && ps[i].velocity.y == 0
                && ps[i].momentum.xx == 0 && ps[i].momentum.xy == 0 && ps[i].momentum.yx == 0
                && ps[i].momentum.yy == 0,
    ensures
        p2g_upto(ps, xs, ys, n).len() == xs * ys,
        forall|j: int|
            0 <= j < xs * ys ==> (#[trigger] p2g_upto(ps, xs, ys, n)[j]).1 == 0 && p2g_upto(
                ps,
                xs,
                ys,
                n,
            )[j].2 == 0,
    decreases n,
{
    if n > 0 {
        lemma_p2g_still(ps, xs, ys, n - 1);
        lemma_scatter_still(p2g_upto(ps, xs, ys, n - 1), ps[n - 1], xs, ys, 9);
    }
}

/// Resolving a grid whose velocity entries are all zero, under zero
/// gravity, changes nothing.
proof fn lemma_resolve_still(g: Seq<(int, int, int)>, xs: int, ys: int)
    requires
        forall|j: int| 0 <= j < g.len() ==> (#[trigger] g[j]).1 == 0 && g[j].2 == 0,
    ensures
        resolve_all(g, xs, ys, 0, 0) == g,
{
    assert forall|j: int| 0 <= j < g.len() implies #[trigger] resolve_all(g, xs, ys, 0, 0)[j]
        == g[j] by {
        if g[j].0 > 0 {
            lemma_div_tz_zero(g[j].0);
        }
    };
    assert(resolve_all(g, xs, ys, 0, 0) =~= g);
}

/// Gathering from a grid whose velocity entries are all zero yields
/// zero sums.
proof fn lemma_gather_still(p: Particle2D, g: Seq<(int, int, int)>, xs: int, ys: int, k: int)
    requires
        g.len() == xs * ys,
        5 <= xs,
        5 <= ys,
        particle_ok(p, xs, ys),
        0 <= k <= 9,
        forall|j: int| 0 <= j < g.len() ==> (#[trigger] g[j]).1 == 0 && g[j].2 == 0,
    ensures
        gather_upto(p, g, xs, k) == (0int, 0int, 0int, 0int, 0int, 0int),
    decreases k,
{
    if k > 0 {
        lemma_gather_still(p, g, xs, ys, k - 1);
        lemma_target_in_range(p, xs, ys, k - 1);
        let t = target(p, k - 1, xs);
        assert(g[t].1 == 0 && g[t].2 == 0);
        assert(weight(p, k - 1) * g[t].1 == 0);
        assert(weight(p, k - 1) * g[t].2 == 0);
    }
}

/// G2P over an all-zero-velocity grid returns the particle unchanged:
/// zero gathered velocity, zero affine matrix, no advection, and a
/// clamp that leaves an in-range position alone.
proof fn lemma_g2p_still(p: Particle2D, g: Seq<(int, int, int)>, xs: int, ys: int, dt: int)
    requires
        g.len() == xs * ys,
        5 <= xs,
        5 <= ys,
        particle_ok(p, xs, ys),
        p.velocity.x == 0,
        p.velocity.y == 0,
        p.momentum.xx == 0,
        p.momentum.xy == 0,
        p.momentum.yx == 0,
        p.momentum.yy == 0,
        forall|j: int| 0 <= j < g.len() ==> (#[trigger] g[j]).1 == 0 && g[j].2 == 0,
    ensures
        g2p_one(p, g, xs, ys, dt) == p,
{
    lemma_gather_still(p, g, xs, ys, 9);
    lemma_div_tz_zero(WDEN2 as int);
    lemma_div_tz_zero(crate::model::MDEN as int);
    lemma_div_tz_zero(1000);
    let q = g2p_one(p, g, xs, ys, dt);
    assert(div_tz(0, WDEN2 as int) == 0);
    assert(q.velocity.x == 0 && q.velocity.y == 0);
    assert(q.momentum.xx == 0 && q.momentum.xy == 0 && q.momentum.yx == 0 && q.momentum.yy == 0);
    assert(0 * dt == 0);
    assert(q.position.x == p.position.x && q.position.y == p.position.y);
    assert(q.mass == p.mass);
}

/// The zero-motion state is a fixed point: with zero gravity, a particle
/// set whose velocities and affine matrices are all zero is returned
/// unchanged by a step, however many times the step is taken.
pub proof fn lemma_zero_motion_fixed_point(ps: Seq<Particle2D>, xs: int, ys: int, dt: int)
    requires
        5 <= xs,
        5 <= ys,
        forall|i: int| 0 <= i < ps.len() ==> particle_ok(#[trigger] ps[i], xs, ys),
        forall|i: int|
            0 <= i < ps.len() ==> (#[trigger] ps[i]).velocity.x == 0 && ps[i].velocity.y == 0
                && ps[i].momentum.xx == 0 && ps[i].momentum.xy == 0 && ps[i].momentum.yx == 0
                && ps[i].momentum.yy == 0,
    ensures
        step_particles(ps, xs, ys, 0, 0, dt) == ps,
{
    lemma_p2g_still(ps, xs, ys, ps.len() as int);
    let g = p2g(ps, xs, ys);
    lemma_resolve_still(g, xs, ys);
    assert forall|i: int| 0 <= i < ps.len() implies #[trigger] step_particles(
        ps,
        xs,
        ys,
        0,
        0,
        dt,
    )[i] == ps[i] by {
        lemma_g2p_still(ps[i], g, xs, ys, dt);
    };
    assert(step_particles(ps, xs, ys, 0, 0, dt) =~= ps);
}

/// Scattering never removes mass from any cell.
proof fn lemma_scatter_cell_mono(
    g: Seq<(int, int, int)>,
    p: Particle2D,
    xs: int,
    ys: int,
    k: int,
    idx: int,
)
    requires
        g.len() == xs * ys,
        5 <= xs,
        5 <= ys,
        particle_ok(p, xs, ys),
        0 <= k <= 9,
        0 <= idx < g.len(),
    ensures
        scatter_upto(g, p, xs, k).len() == g.len(),
        scatter_upto(g, p, xs, k)[idx].0 >= g[idx].0,
    decreases k,
{
    if k > 0 {
        lemma_scatter_cell_mono(g, p, xs, ys, k - 1, idx);
        lemma_target_in_range(p, xs, ys, k - 1);
        lemma_particle_geometry(p, xs, ys);
        lemma_weight_facts(dshift_x(p));
        lemma_weight_facts(dshift_y(p));
        lemma_mul_nonneg_bound(
            w_axis(dshift_x(p), off_col(k - 1)),
            w_axis(dshift_y(p), off_row(k - 1)),
            1_500_000,
            1_500_000,
        );
        lemma_mul_nonneg_bound(weight(p, k - 1), p.mass as int, W2_MAX as int, MASS_CAP as int);
    }
}

/// After the full scatter of one particle, the cell of stencil slot `j`
/// holds at least that slot's mass contribution.
proof fn lemma_scatter_contrib(
    g: Seq<(int, int, int)>,
    p: Particle2D,
    xs: int,
    ys: int,
    j: int,
    k: int,
)
    requires
        g.len() == xs * ys,
        5 <= xs,
        5 <= ys,
        particle_ok(p, xs, ys),
        0 <= j < k <= 9,
    ensures
        scatter_upto(g, p, xs, k)[target(p, j, xs)].0 >= g[target(p, j, xs)].0 + weight(p, j)
            * p.mass,
    decreases k,
{
    lemma_target_in_range(p, xs, ys, j);
    if k == j + 1 {
        lemma_scatter_cell_mono(g, p, xs, ys, j, target(p, j, xs));
    } else {
        lemma_scatter_contrib(g, p, xs, ys, j, k - 1);
        lemma_target_in_range(p, xs, ys, k - 1);
        lemma_particle_geometry(p, xs, ys);
        lemma_weight_facts(dshift_x(p));
        lemma_weight_facts(dshift_y(p));
        lemma_mul_nonneg_bound(
            w_axis(dshift_x(p), off_col(k - 1)),
            w_axis(dshift_y(p), off_row(k - 1)),
            1_500_000,
            1_500_000,
        );
        lemma_mul_nonneg_bound(weight(p, k - 1), p.mass as int, W2_MAX as int, MASS_CAP as int);
        lemma_scatter_cell_mono(g, p, xs, ys, k - 1, target(p, j, xs));
    }
}

/// Gathering from a grid that holds velocity `(gx, gy)` wherever the
/// particle has positive weight sums to the full impulse, because the
/// zero-weight slots contribute nothing either way.
proof fn lemma_gather_const(
    p: Particle2D,
    r: Seq<(int, int, int)>,
    xs: int,
    ys: int,
    gx: int,
    gy: int,
    k: int,
)
    requires
        r.len() == xs * ys,
        5 <= xs,
        5 <= ys,
        particle_ok(p, xs, ys),
        0 <= k <= 9,
        forall|j: int|
            0 <= j < 9 && #[trigger] weight(p, j) > 0 ==> r[target(p, j, xs)].1 == gx && r[target(
                p,
                j,
                xs,
            )].2 == gy,
    ensures
        gather_upto(p, r, xs, k).0 == wsum(p, k) * gx,
        gather_upto(p, r, xs, k).1 == wsum(p, k) * gy,
    decreases k,
{
    if k > 0 {
        lemma_gather_const(p, r, xs, ys, gx, gy, k - 1);
        lemma_target_in_range(p, xs, ys, k - 1);
        lemma_particle_geometry(p, xs, ys);
        lemma_weight_facts(dshift_x(p));
        lemma_weight_facts(dshift_y(p));
        lemma_mul_nonneg_bound(
            w_axis(dshift_x(p), off_col(k - 1)),
            w_axis(dshift_y(p), off_row(k - 1)),
            1_500_000,
            1_500_000,
        );
        let w = weight(p, k - 1);
        let t = target(p, k - 1, xs);
        if w > 0 {
            assert(r[t].1 == gx && r[t].2 == gy);
        } else {
            assert(w == 0);
        }
        assert((wsum(p, k - 1) + w) * gx == wsum(p, k - 1) * gx + w * gx) by (nonlinear_arith);
        assert((wsum(p, k - 1) + w) * gy == wsum(p, k - 1) * gy + w * gy) by (nonlinear_arith);
    }
}

/// Gravity integration: one step of a single resting particle, interior
/// enough that its whole stencil avoids the wall margin, adds exactly
/// the gravity impulse `gravity * dt` to its velocity and advects the
/// position by that velocity.
pub proof fn lemma_gravity_impulse(p: Particle2D, xs: int, ys: int, gx: int, gy: int, dt: int)
    requires
        5 <= xs <= AXIS_CAP,
        5 <= ys <= AXIS_CAP,
        particle_ok(p, xs, ys),
        3000 <= p.position.x < (xs - 3) * 1000,
        3000 <= p.position.y < (ys - 3) * 1000,
        p.velocity.x == 0,
        p.velocity.y == 0,
        p.momentum.xx == 0,
        p.momentum.xy == 0,
        p.momentum.yx == 0,
        p.momentum.yy == 0,
        -VEL_CAP <= gx <= VEL_CAP,
        -VEL_CAP <= gy <= VEL_CAP,
    ensures
        ({
            let q = step_particles(seq![p], xs, ys, gx, gy, dt)[0];
            q.velocity.x == gx && q.velocity.y == gy && q.position.x == clamp_i(
                p.position.x + div_tz(gx * dt, 1000),
                1000,
                (xs - 2) * 1000,
            ) && q.position.y == clamp_i(p.position.y + div_tz(gy * dt, 1000), 1000, (ys - 2)
                * 1000) && q.mass == p.mass
        }),
{
    let ps = seq![p];
    assert(ps.len() == 1 && ps[0] == p);
    let g0 = zero_grid(xs * ys);
    let g = p2g(ps, xs, ys);
    assert(p2g_upto(ps, xs, ys, 0) == g0);
    assert(p2g_upto(ps, xs, ys, 1) == scatter_upto(p2g_upto(ps, xs, ys, 0), ps[0], xs, 9));
    assert(g == scatter_upto(g0, p, xs, 9));
    lemma_p2g_still(ps, xs, ys, 1);
    lemma_particle_geometry(p, xs, ys);
    let r = resolve_all(g, xs, ys, gx, gy);
    assert forall|j: int|
        0 <= j < 9 && #[trigger] weight(p, j) > 0 implies r[target(p, j, xs)].1 == gx && r[target(
        p,
        j,
        xs,
    )].2 == gy by {
        lemma_target_in_range(p, xs, ys, j);
        lemma_scatter_contrib(g0, p, xs, ys, j, 9);
        let t = target(p, j, xs);
        let m = p.mass as int;
        assert(g0[t].0 == 0);
        assert(weight(p, j) * m > 0) by (nonlinear_arith)
            requires
                weight(p, j) > 0,
                m > 0,
        ;
        assert(g[t].0 > 0);
        let row = cell_row(p) + off_row(j);
        let col = cell_col(p) + off_col(j);
        lemma_mod_division_less_than_divisor(j, 3);
        lemma_div_pos_is_pos(j, 3);
        lemma_div_is_ordered(j, 8, 3);
        // the containing cell is at least three cells from each wall, so
        // every stencil cell is outside the two-cell margin
        lemma_div_is_ordered(3000, p.position.x as int, 1000);
        lemma_div_is_ordered(3000, p.position.y as int, 1000);
        lemma_div_is_ordered(p.position.x as int, (xs - 4) * 1000 + 999, 1000);
        lemma_div_is_ordered(p.position.y as int, (ys - 4) * 1000 + 999, 1000);
        vstd::arithmetic::div_mod::lemma_div_multiples_vanish_fancy(xs - 4, 999, 1000);
        vstd::arithmetic::div_mod::lemma_div_multiples_vanish_fancy(ys - 4, 999, 1000);
        assert(2 <= col <= xs - 3);
        assert(2 <= row <= ys - 3);
        vstd::arithmetic::div_mod::lemma_fundamental_div_mod_converse(t, xs, row, col);
        assert(t % xs == col && t / xs == row);
        lemma_div_tz_zero(g[t].0);
        assert(g[t].1 == 0 && g[t].2 == 0);
        assert(r[t] == resolve_cell(g[t], t, xs, ys, gx, gy));
        assert(r[t].1 == gx && r[t].2 == gy);
    };
    lemma_gather_const(p, r, xs, ys, gx, gy, 9);
    lemma_wsum_total(p);
    assert(gather_upto(p, r, xs, 9).0 == WDEN2 * gx);
    assert(gather_upto(p, r, xs, 9).1 == WDEN2 * gy);
    lemma_div_tz_exact(gx, WDEN2 as int);
    lemma_div_tz_exact(gy, WDEN2 as int);
    let q = g2p_one(p, r, xs, ys, dt);
    assert(q.velocity.x == gx && q.velocity.y == gy);
    assert(q.position.x == clamp_i(p.position.x + div_tz(gx * dt, 1000), 1000, (xs - 2) * 1000));
    assert(q.position.y == clamp_i(p.position.y + div_tz(gy * dt, 1000), 1000, (ys - 2) * 1000));
    assert(step_particles(ps, xs, ys, gx, gy, dt)[0] == q);
}

/// A particle's mass is constant over the simulation's lifetime: a step
/// rewrites position, velocity and the affine matrix, never the mass.
pub proof fn lemma_masses_preserved(ps: Seq<Particle2D>, xs: int, ys: int, gx: int, gy: int, dt: int)
    ensures
        step_particles(ps, xs, ys, gx, gy, dt).len() == ps.len(),
        forall|i: int|
            0 <= i < ps.len() ==> #[trigger] step_particles(ps, xs, ys, gx, gy, dt)[i].mass
                == ps[i].mass,
{
}

/// Every particle position is inside `[SCALE, (size - 2) * SCALE]` after
/// a step, whatever its velocity: the advection clamp guarantees the
/// 3x3 stencil of the next step stays inside the grid.
pub proof fn lemma_positions_clamped(
    ps: Seq<Particle2D>,
    xs: int,
    ys: int,
    gx: int,
    gy: int,
    dt: int,
    i: int,
)
    requires
        5 <= xs <= AXIS_CAP,
        5 <= ys <= AXIS_CAP,
        0 <= i < ps.len(),
    ensures
        1000 <= step_particles(ps, xs, ys, gx, gy, dt)[i].position.x <= (xs - 2) * 1000,
        1000 <= step_particles(ps, xs, ys, gx, gy, dt)[i].position.y <= (ys - 2) * 1000,
{
}

/// Every cell of a P2G grid has nonnegative mass, and a cell that
/// received no mass also holds no momentum.
proof fn lemma_scatter_nonneg(g: Seq<(int, int, int)>, p: Particle2D, xs: int, ys: int, k: int)
    requires
        g.len() == xs * ys,
        5 <= xs,
        5 <= ys,
        particle_ok(p, xs, ys),
        0 <= k <= 9,
        forall|j: int|
            0 <= j < g.len() ==> 0 <= (#[trigger] g[j]).0 && (g[j].0 == 0 ==> g[j].1 == 0 && g[j].2
                == 0),
    ensures
        scatter_upto(g, p, xs, k).len() == g.len(),
        forall|j: int|
            0 <= j < g.len() ==> 0 <= (#[trigger] scatter_upto(g, p, xs, k)[j]).0 && (scatter_upto(
                g,
                p,
                xs,
                k,
            )[j].0 == 0 ==> scatter_upto(g, p, xs, k)[j].1 == 0 && scatter_upto(g, p, xs, k)[j].2
                == 0),
    decreases k,
{
    if k > 0 {
        lemma_scatter_nonneg(g, p, xs, ys, k - 1);
        lemma_target_in_range(p, xs, ys, k - 1);
        lemma_particle_geometry(p, xs, ys);
        lemma_weight_facts(dshift_x(p));
        lemma_weight_facts(dshift_y(p));
        lemma_mul_nonneg_bound(
            w_axis(dshift_x(p), off_col(k - 1)),
            w_axis(dshift_y(p), off_row(k - 1)),
            1_500_000,
            1_500_000,
        );
        lemma_mul_nonneg_bound(weight(p, k - 1), p.mass as int, W2_MAX as int, MASS_CAP as int);
        let mc = weight(p, k - 1) * p.mass as int;
        assert((p.velocity.x + apic_x(p, k - 1)) * 0 == 0);
        assert(mc == 0 ==> (p.velocity.x + apic_x(p, k - 1)) * mc == 0);
        assert(mc == 0 ==> (p.velocity.y + apic_y(p, k - 1)) * mc == 0);
    }
}

proof fn lemma_p2g_nonneg_upto(ps: Seq<Particle2D>, xs: int, ys: int, n: int)
    requires
        5 <= xs,
        5 <= ys,
        0 <= n <= ps.len(),
        forall|i: int| 0 <= i < ps.len() ==> particle_ok(#[trigger] ps[i], xs, ys),
    ensures
        p2g_upto(ps, xs, ys, n).len() == xs * ys,
        forall|j: int|
            0 <= j < xs * ys ==> 0 <= (#[trigger] p2g_upto(ps, xs, ys, n)[j]).0 && (p2g_upto(
                ps,
                xs,
                ys,
                n,
            )[j].0 == 0 ==> p2g_upto(ps, xs, ys, n)[j].1 == 0 && p2g_upto(ps, xs, ys, n)[j].2
                == 0),
    decreases n,
{
    if n > 0 {
        lemma_p2g_nonneg_upto(ps, xs, ys, n - 1);
        lemma_scatter_nonneg(p2g_upto(ps, xs, ys, n - 1), ps[n - 1], xs, ys, 9);
    }
}

/// The wall boundary condition: in the two-cell margin along a wall,
/// the resolved grid of any particle set carries no velocity into the
/// wall -- the x component is zero in the left and right margins, the
/// y component in the bottom and top margins.
pub proof fn lemma_wall_margin(ps: Seq<Particle2D>, xs: int, ys: int, gx: int, gy: int, i: int)
    requires
        5 <= xs,
        5 <= ys,
        forall|k: int| 0 <= k < ps.len() ==> particle_ok(#[trigger] ps[k], xs, ys),
        0 <= i < xs * ys,
    ensures
        i % xs < 2 || i % xs > xs - 3 ==> resolve_all(p2g(ps, xs, ys), xs, ys, gx, gy)[i].1 == 0,
        i / xs < 2 || i / xs > ys - 3 ==> resolve_all(p2g(ps, xs, ys), xs, ys, gx, gy)[i].2 == 0,
{
    lemma_p2g_nonneg_upto(ps, xs, ys, ps.len() as int);
    let g = p2g(ps, xs, ys);
    assert(resolve_all(g, xs, ys, gx, gy)[i] == resolve_cell(g[i], i, xs, ys, gx, gy));
}

} // verus!
