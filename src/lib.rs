//! The core of an interval timer: timecards that are either open or closed,
//! a session that punches in and out and totals its tracked time, and the
//! configured phases that a run cycles through.

pub mod app;
pub mod phase;
pub mod timecard;
