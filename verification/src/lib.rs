//! Reconciliation of a month's timesheet: which working days still need an
//! entry, given the days already logged, the approved vacation days and the
//! recognized bank holidays.
//!
//! All dates are ISO-8601 calendar-date strings (`YYYY-MM-DD`), treated as
//! opaque tokens by the set logic and given meaning by the [`date`] module.

pub mod calendar;
pub mod config;
pub mod date;
pub mod eligibility;
pub mod model;
pub mod strutil;
pub mod timeoff;
