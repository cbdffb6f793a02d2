//! A verified core for an interactive 2-D particle simulation.
//!
//! The simulation owns a growable collection of point particles confined to
//! the unit box `[0, 1] x [0, 1]`. Each tick it computes, for every particle,
//! the net pairwise electrostatic force plus uniform gravity from a single
//! consistent snapshot of the collection, then integrates each particle's
//! motion (with quadratic drag) and reflects it elastically off the box walls.
//!
//! All physical quantities are fixed-point numbers: an `i128` holding the
//! quantity scaled by [`math::SCALE`] (one unit is `1 / SCALE`). Fixed-point
//! arithmetic keeps every result an exact integer function of the inputs, so
//! every operation of the core carries a full functional contract, and the
//! properties of the force model (symmetry, overlap handling, self-exclusion,
//! confinement to the box, order independence of a tick) are proved in
//! [`laws`].

pub mod config;
pub mod laws;
pub mod math;
pub mod particle;
pub mod system;
pub mod vec2;
