//! A personal time-tracking library: clock entries per project, a derived
//! clocked-in/clocked-out state, and totals of worked time inside a window.

pub mod index;
pub mod query;
pub mod timesheet;
pub mod timestamp;
