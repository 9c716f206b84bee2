//! Tracks user-defined dates and recomputes, for each, the time elapsed since
//! it or left until it, in days and in years, weeks and days.

pub mod calendar;
pub mod span;
pub mod components;
pub mod display;
pub mod cycle;
pub mod store;
