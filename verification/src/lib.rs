//! Core simulation of an arcade breakout round.
//!
//! A paddle deflects balls toward a descending grid of destructible blocks;
//! destroying a block yields score and experience and may drop a powerup.
//! The simulation advances in fixed ticks over a plain integer coordinate
//! model: positions and sizes are `i64` values, and every motion update
//! saturates at [`geom::COORD_LIMIT`] so that all arithmetic stays in range.
//! Each phase of a tick is a verified function whose contract states the
//! exact outcome; the only unverified code is a thin wrapper around the
//! random number generator used for powerup drops.

pub mod ball;
pub mod block;
pub mod config;
pub mod geom;
pub mod paddle;
pub mod pickup;
pub mod powerup;
pub mod resolve;
pub mod world;
pub mod num;
pub mod timer;
