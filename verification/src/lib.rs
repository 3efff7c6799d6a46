//! A 2D rigid-body particle simulation core: circular bodies under gravity,
//! boundary collision, pairwise impulse resolution with positional overlap
//! correction, and a spawn-on-first-collision rule.
//!
//! All kinematic quantities are fixed-point integers in milli-units (one
//! thousandth of a simulation unit).  Every stored quantity is kept inside the
//! saturating range `[-SAT, SAT]`; per-mille coefficients (restitution,
//! friction, the elastic collision constant) scale by `SCALE = 1000` with
//! truncating division.  Rendering, input and persistence are left to the
//! embedding application, which drives the simulation through `World::step`
//! and the per-body control surface.

pub mod fixmath;
pub mod vec2;
pub mod rng;
pub mod body;
pub mod collide;
pub mod world;
pub mod laws;
