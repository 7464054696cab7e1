//! Duty-cycle CPU limiting: the decisions of a limiter that throttles
//! processes which do not cooperate, by alternating stop and continue signals.
//!
//! In targeted mode one chosen process runs for a share of every period and
//! stands still for the rest. In global mode the busiest process is suspended
//! while the load of the whole system is above the limit, and the process
//! suspended first is resumed once the load has fallen well below it.
//!
//! The library decides; it never signals, sleeps or samples. A driver owns an
//! [`engine::Engine`], performs the one action that the engine names, and
//! hands the outcome to [`engine::Engine::step`]:
//!
//! * [`limiter`] holds the record that clients write and the engine reads;
//! * [`config`] and [`status`] are the two halves of that record;
//! * [`protocol`] is what engine and driver say to each other;
//! * [`model`] states the engine as a state machine, and [`engine`] runs it;
//! * [`duty`] splits a period, [`global`] picks the process to suspend,
//!   [`usage`] compares the samples exactly, and [`paused`] keeps the
//!   suspended processes in order;
//! * [`laws`] proves what holds of the engine whatever its driver reports.

pub mod config;
pub mod duty;
pub mod engine;
pub mod global;
pub mod laws;
pub mod limiter;
pub mod model;
pub mod paused;
pub mod protocol;
pub mod status;
pub mod usage;
