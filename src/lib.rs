//! A stopwatch service: a monotonic clock reading and named timers that are
//! started and stopped by plain-text requests.
pub mod clock;
pub mod decimal;
pub mod laws;
pub mod registry;
pub mod route;
pub mod service;
