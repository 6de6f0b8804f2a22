//! Arbitration of one shared compute host among many requesters: the
//! request model, the reservation state with its selection policy, the
//! utilization monitor, the notification backoff and the per-tick step.

pub mod config;
pub mod monitor;
pub mod clock;
pub mod request;
pub mod state;
pub mod notify;
pub mod tick;
pub mod util;
