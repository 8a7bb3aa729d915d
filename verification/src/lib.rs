//! A duty-roster planner: assigns employees to the two daily duty slots
//! (morning and afternoon) over an inclusive range of days, skipping
//! weekends, marking holidays, honouring administrator-fixed overrides and
//! per-employee off-days, and balancing workload by a normalized duty load.
//!
//! A calendar date is represented as a day number: the count of days since a
//! fixed epoch that falls on a Monday, so that `day % 7` gives the weekday.
pub mod calendar;
pub mod config;
pub mod employee;
pub mod file_handler;
mod rng;
pub mod roster;
pub mod selector;

pub use calendar::DayClass;
pub use calendar::Slot;
pub use calendar::SlotKey;
