//! A synthetic metrics endpoint: fabricated CPU, memory and health readings,
//! a registry of named gauges that holds the latest of them, and the routing
//! and framing of the three HTTP endpoints that expose them.
//!
//! Real numbers are held as fixed-point integers throughout: a CPU load is a
//! count of millionths (see [`generators::LOAD_SCALE`]).

pub mod generators;
pub mod handlers;
pub mod metrics;
pub mod random;
pub mod registry;
pub mod request;
pub mod response;
