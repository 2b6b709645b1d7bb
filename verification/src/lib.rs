//! A step timer for bread making.
//!
//! A plan is an ordered list of named steps, each ending at a cumulative
//! offset in seconds. The timer follows the elapsed time through the plan,
//! raises an alert whenever the current step changes, and keeps the alert
//! raised until it is acknowledged.

pub mod display;
pub mod laws;
pub mod schedule;
pub mod timer;
pub mod wall_clock;
