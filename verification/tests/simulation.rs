use mls_mpm::Cell;
use mls_mpm::FxMat2;
use mls_mpm::FxVec2;
use mls_mpm::Particle2D;
use mls_mpm::Simulation2D;

fn still_particle(x: i64, y: i64, mass: i64) -> Particle2D {
    Particle2D {
        position: FxVec2 { x, y },
        velocity: FxVec2 { x: 0, y: 0 },
        momentum: FxMat2 { xx: 0, xy: 0, yx: 0, yy: 0 },
        mass,
    }
}

fn moving_particle(x: i64, y: i64, vx: i64, vy: i64, mass: i64) -> Particle2D {
    Particle2D {
        position: FxVec2 { x, y },
        velocity: FxVec2 { x: vx, y: vy },
        momentum: FxMat2 { xx: 0, xy: 0, yx: 0, yy: 0 },
        mass,
    }
}

fn no_gravity() -> FxVec2 {
    FxVec2 { x: 0, y: 0 }
}

#[test]
fn cell_zero_is_empty() {
    let c = Cell::zero();
    assert_eq!(c.mass, 0);
    assert_eq!(c.velocity_x, 0);
    assert_eq!(c.velocity_y, 0);
}

#[test]
fn construction_precomputes_gravity_impulse() {
    let sim = Simulation2D::new(
        8,
        8,
        vec![still_particle(4000, 4000, 1000)],
        FxVec2 { x: 0, y: -50 },
        1000,
    );
    assert_eq!(sim.x_size, 8);
    assert_eq!(sim.y_size, 8);
    assert_eq!(sim.num_cells, 64);
    assert_eq!(sim.gravity_times_dt.x, 0);
    assert_eq!(sim.gravity_times_dt.y, -50);
    assert_eq!(sim.dt, 1000);
    assert_eq!(sim.steps_run, 0);
}

#[test]
fn step_counter_increments_by_one_per_step() {
    let mut sim = Simulation2D::new(
        8,
        8,
        vec![still_particle(4000, 4000, 1000)],
        no_gravity(),
        1000,
    );
    assert_eq!(sim.steps_run, 0);
    for expected in 1..=5usize {
        sim.step();
        assert_eq!(sim.steps_run, expected);
    }
}

#[test]
fn zero_gravity_interior_particle_rests() {
    let mut sim = Simulation2D::new(
        16,
        16,
        vec![still_particle(8300, 8700, 1000)],
        no_gravity(),
        1000,
    );
    sim.step();
    assert_eq!(sim.particles[0].position, FxVec2 { x: 8300, y: 8700 });
    assert_eq!(sim.particles[0].velocity, FxVec2 { x: 0, y: 0 });
}

#[test]
fn zero_motion_state_is_fixed_over_many_steps() {
    let initial = vec![
        still_particle(5000, 5000, 1000),
        still_particle(5100, 5200, 2000),
        still_particle(9900, 3300, 500),
        still_particle(3000, 10000, 1500),
    ];
    let mut sim = Simulation2D::new(16, 16, initial.clone(), no_gravity(), 1000);
    for _ in 0..20 {
        sim.step();
        assert_eq!(sim.particles, initial);
    }
}

#[test]
fn gravity_advances_velocity_by_impulse() {
    let mut sim = Simulation2D::new(
        32,
        32,
        vec![still_particle(16300, 20500, 1000)],
        FxVec2 { x: 0, y: -50 },
        1000,
    );
    sim.step();
    assert_eq!(sim.particles[0].velocity.y, -50);
    assert_eq!(sim.particles[0].velocity.x, 0);
    assert_eq!(sim.particles[0].position.y, 20450);
    // Over several steps the velocity keeps accumulating roughly one
    // impulse per step (grid transfer may smooth it slightly).
    for _ in 0..9 {
        sim.step();
    }
    let vy = sim.particles[0].velocity.y;
    assert!(vy <= -400, "velocity.y was {}", vy);
    assert!(vy >= -600, "velocity.y was {}", vy);
}

#[test]
fn wall_clamp_keeps_particles_inside_domain() {
    let mut sim = Simulation2D::new(
        8,
        8,
        vec![
            moving_particle(1500, 3500, -1_000_000_000, 0, 1000),
            moving_particle(5500, 5500, 1_000_000_000, 1_000_000_000, 1000),
        ],
        no_gravity(),
        1000,
    );
    for _ in 0..30 {
        sim.step();
        for p in sim.particles.iter() {
            assert!(p.position.x >= 1000 && p.position.x <= 6000);
            assert!(p.position.y >= 1000 && p.position.y <= 6000);
        }
    }
}

#[test]
fn grid_mass_equals_total_particle_mass() {
    let sim = Simulation2D::new(
        16,
        16,
        vec![
            moving_particle(5000, 5000, 300, -200, 1000),
            moving_particle(5100, 5200, -100, 50, 2500),
            moving_particle(9950, 3333, 0, 0, 777),
            moving_particle(3000, 10000, 12345, -6789, 1),
        ],
        FxVec2 { x: 0, y: -50 },
        1000,
    );
    let grid = sim.build_grid();
    let total: i128 = grid.iter().map(|c| c.mass).sum();
    let particle_total: i128 = sim.particles.iter().map(|p| p.mass as i128).sum();
    assert_eq!(total, 4_000_000_000_000i128 * particle_total);
}

#[test]
fn empty_particle_set_steps_fine() {
    let mut sim = Simulation2D::new(8, 8, Vec::new(), FxVec2 { x: 100, y: -100 }, 500);
    sim.step();
    sim.step();
    assert_eq!(sim.steps_run, 2);
    assert_eq!(sim.particles.len(), 0);
}

#[test]
fn end_to_end_dense_block() {
    let mut particles = Vec::new();
    for x in 0..100i64 {
        for y in 0..100i64 {
            particles.push(moving_particle(10_000 + 100 * x, 10_000 + 100 * y, 500, 30, 1000));
        }
    }
    let mut sim = Simulation2D::new(32, 32, particles, FxVec2 { x: 0, y: -50 }, 1000);
    sim.step();
    assert_eq!(sim.steps_run, 1);
    for p in sim.particles.iter() {
        assert!(p.position.x >= 1000 && p.position.x <= 30_000);
        assert!(p.position.y >= 1000 && p.position.y <= 30_000);
        assert!(p.velocity.x.abs() <= 30_000);
        assert!(p.velocity.y.abs() <= 30_000);
    }
}
