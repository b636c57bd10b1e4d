//! A 2D Material Point Method (MLS-MPM) simulator with APIC velocity
//! transfer, computed in exact fixed-point arithmetic.
//!
//! Each time step scatters particle mass and momentum onto a background
//! grid with a quadratic B-spline kernel (P2G), resolves grid velocities
//! (gravity and wall boundary conditions), and gathers the result back to
//! the particles together with their affine velocity matrix (G2P), then
//! advects and clamps particle positions.
//!
//! All quantities are scaled integers: a real value `x` is stored as the
//! integer `x * SCALE`, and every intermediate result is specified exactly,
//! including the rounding of each division.

pub mod arith;
pub mod laws;
pub mod model;
pub mod sim;

pub use sim::Cell;
pub use sim::FxMat2;
pub use sim::FxVec2;
pub use sim::Particle2D;
pub use sim::Simulation2D;
