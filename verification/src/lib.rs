//! Readiness tracking for `select`-based asynchronous I/O, and timers driven by a
//! tick-based time driver.
pub mod platform;
pub mod task;
pub mod time;
pub mod timer;
pub mod reactor;
