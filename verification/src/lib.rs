//! Verified core of a small fixed-timestep arcade game: a ship on a toroidal
//! playfield shoots projectiles at drifting polygonal comets that split into
//! smaller fragments when hit.
//!
//! All geometry and physics are carried out in fixed-point arithmetic:
//! lengths are measured in milli-units (one thousandth of a screen unit) and
//! times in milliseconds, so every quantity is a plain integer and every
//! contract is exact. Randomness (spawn positions, drift directions,
//! rotation speeds) enters only through a single trusted wrapper around the
//! `rand` crate; everything downstream of a draw is verified for every value
//! the draw can take.

pub mod num;
pub mod vec2;
pub mod shape;
pub mod projectile;
pub mod player;
mod rng;
pub mod comet;
pub mod game_state;
pub mod laws;
