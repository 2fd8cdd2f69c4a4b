//! Verified rules of a single-qubit model on the Bloch sphere, and a small
//! category of open sets generated from a basis.
//!
//! Numbers that the model measures are binary64 values. The library reads
//! their bit patterns and decides on them; it does not compute with them.

pub mod binary64;
pub mod categories;
pub mod complex;
pub mod matrix;
pub mod model;
pub mod operators;
pub mod state;
