//! A small benchmarking library: run a command a fixed number of times,
//! time each run, report each outcome, and report the average duration.
//!
//! The verified core is split in three parts:
//! - [`duration`]: a plain duration type with exact arithmetic,
//! - [`format`]: decimal rendering and the fixed human-readable breakdown,
//! - [`runner`]: the run loop's state machine (accumulate, report, average).
//!
//! Spawning processes, waiting on them, and coloured terminal output are
//! left to the binary around this library; the library only decides what is
//! reported and computes the timings.

pub mod duration;
pub mod format;
pub mod runner;

pub use duration::Dur;
pub use format::parse_time;
