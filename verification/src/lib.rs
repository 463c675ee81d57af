//! A deterministic 2D n-body gravity simulator.
//!
//! Bodies live in a dense arena keyed by integer handles. Every scalar is a
//! fixed-point number: an `i64` counting thousandths of a world unit, kept in
//! the symmetric range `[-i64::MAX, i64::MAX]` by saturating arithmetic, so
//! that every operation is total and every trajectory is reproducible bit for
//! bit.
//!
//! One tick of the simulation runs a configurable number of velocity-Verlet
//! steps over the real bodies, then an independent number of steps over the
//! speculative preview bodies, and finally rebuilds the preview body when the
//! caller asks for it. A separate pass flags overlapping pairs for collision
//! resolution.

pub mod body;
pub mod collision;
pub mod fixed;
pub mod laws;
pub mod orchestrator;
pub mod physics;
pub mod vector;
