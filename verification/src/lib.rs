//! Daily reconciliation for a club's attendance records: when the next run is
//! due, what a run writes, and what the attendance report says.
//!
//! - [`calendar`] and [`clock`]: dates, instants, and a time zone's view of them.
//! - [`schedule`]: the next trigger, the sleep until it, and the loop's two states.
//! - [`models`], [`table`] and [`store`]: the rows, and a store kept in memory.
//! - [`seeding`] and [`bootstrap`]: the daily task and its per-table passes.
//! - [`report`]: the attendance report.
//! - [`laws`]: what is proved of the task and the loop as a whole.

pub mod bootstrap;
pub mod calendar;
pub mod clock;
pub mod laws;
pub mod models;
pub mod report;
pub mod schedule;
pub mod seeding;
pub mod store;
pub mod table;
