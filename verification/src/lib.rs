//! Core of a terminal video cutter: a drift-free frame-pacing clock, a
//! marker/segment index, the playback state machine that reconciles user
//! actions with the playhead, a pure view composer, and the planning of the
//! final cut commands. All time is carried as integer microseconds and all
//! frame rates as exact rationals, so every computation here is exact.

pub mod clock;
pub mod cuts;
pub mod digits;
pub mod markers;
pub mod meta;
pub mod model;
pub mod program;
pub mod raster;
pub mod scan;
pub mod view;

use vstd::prelude::*;

verus! {

/// Microseconds per second: the resolution every timestamp in this crate uses.
pub const MICROS_PER_SEC: u64 = 1_000_000;

} // verus!

