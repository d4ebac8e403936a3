//! Deterministic numeric primitives for procedural generation: a 64-bit linear
//! congruential generator and the integer lattice of a 2D gradient-noise field.
//!
//! Everything here works on integers. Scaling a draw to a float and
//! interpolating between the gradients of a cell's corners are left to the
//! code built on top: [`rng::Rng::next_mantissa`] and
//! [`perlin::PerlinNoise::corner_hashes`] hand it what it needs.

pub mod perlin;
pub mod rng;
