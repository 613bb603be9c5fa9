//! A sliding-window throttle: at most `capacity` admissions within any trailing
//! `window` of a monotonic clock, with the instant of the next free slot where
//! an admission is refused.
//!
//! Instants and windows are plain numbers, nanoseconds on a monotonic clock.
//!
//! - `state` is the mathematical model that every contract is written over.
//! - `throttle` is the throttle itself, verified against that model.
//! - `clock` reads the standard library's monotonic clock as a number.
//! - `laws` proves what holds of the model over several operations.

pub mod clock;
pub mod laws;
pub mod state;
pub mod throttle;

pub use crate::throttle::Throttle;
