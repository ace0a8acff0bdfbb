//! A Poseidon cryptographic sponge over a 64-bit prime field.
//!
//! The sponge absorbs field elements into a fixed-size state through a
//! permutation built from full and partial substitution rounds, and squeezes
//! field elements, bytes, or bits back out. Every operation carries a
//! contract that pins its result to a mathematical model of the sponge.

pub mod field;
pub mod params;
pub mod sponge;
pub mod laws;
