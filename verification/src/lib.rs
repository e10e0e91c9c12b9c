//! Request scheduling and latency timing for an HTTP load generator.
//!
//! The library decides; its caller acts. Clock readings come in as
//! nanosecond counts, decisions go out as plain values, and the caller owns
//! the HTTP client and the runtime that carries the requests.

pub mod clock;
pub mod config;
pub mod deadline;
pub mod duration;
pub mod header;
pub mod laws;
pub mod method;
pub mod schedule;
pub mod scheduler;
pub mod timed;

pub use crate::duration::duration_from_str_secs;
