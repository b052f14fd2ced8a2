//! Decision logic of the Attic binary cache client and server: command
//! argument rules, substituter aliasing, telemetry configuration, metric
//! attributes and access-tracking batches.

pub mod text;
pub mod sorting;
pub mod access_tracking;
pub mod telemetry;
pub mod metrics;
pub mod substituters;
pub mod servers;
pub mod cache_commands;
