//! A fixed-timestep loop: the per-frame decisions of a loop that calls a
//! frame callback, accumulates the time that passed, runs one logical
//! update for each whole tick accumulated and then sleeps out the rest of
//! the tick.
//!
//! The loop itself, which reads the clock and suspends the thread, is driven
//! from outside this library; every decision it makes is taken here.

pub mod timestep;
pub mod script;

pub use script::{run_scripted, RunReport};
pub use timestep::{clamped_sleep_nanos, Action, FixedTimestep, Tick, FIXED_TICK_NANOS};
