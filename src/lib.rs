//! Scheduling, bookkeeping and wire framing for a load-and-consistency
//! harness that drives a workout-tracking HTTP API.

pub mod ids;
pub mod schedule;
pub mod workout;
pub mod chance;
pub mod transport;
pub mod templates;
pub mod credentials;
pub mod laws;
