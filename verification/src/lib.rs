//! Verified core of an uptime/health-aggregation backend.
//!
//! External services prove liveness either by pushing a token-authenticated
//! heartbeat or by being polled for container-runtime state.  This crate holds
//! the logic that turns those discrete heartbeat events into a compact,
//! queryable rolling-window history per monitored service: hourly bucketing,
//! idempotent snapshot aggregation, bounded retention, and the gap-aware
//! window view.  Transport, persistence and the container runtime live
//! outside; the library speaks to them through plain values.

pub mod aggregate;
pub mod config;
pub mod error;
pub mod ingest;
pub mod poll;
pub mod store;
pub mod sweep;
pub mod time;
pub mod view;
