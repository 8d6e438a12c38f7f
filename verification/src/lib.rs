//! A deterministic particle-field simulation core: a resizable worker-pool
//! model, a partitioned parallel-update scheduler, and a fixed-point physics
//! law for particles attracted by a small set of gravity sources.
//!
//! Every tick splits the particle buffer into contiguous, non-overlapping
//! ranges that exactly cover it (`partition`), submits one job per range to
//! the pool (`threadpool`), and steps each particle against a snapshot of
//! the gravity sources and the settings (`entity`, `world`). The central
//! property is determinism: the post-tick state is proven independent of
//! the worker count, so a schedule only chooses which job does the work,
//! never what the result is. All arithmetic is exact integer arithmetic
//! over scaled coordinates (`math`), so ticks are reproducible bit for bit.

use vstd::prelude::*;

pub mod entity;
pub mod math;
pub mod partition;
pub mod random;
pub mod threadpool;
pub mod world;

verus! {

/// Scale factor of fixed-point world coordinates: one world unit is
/// `PRECISION` position steps.
pub const PRECISION: i32 = 1_000;

} // verus!
