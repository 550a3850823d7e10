//! In-process telemetry for a long-running network agent.
//!
//! The crate collects per-request outcome counters, turns them into
//! periodic snapshot reports enriched with host-latency probes and
//! system-resource samples, and drives the state machines behind a
//! resilient multi-target report pusher and a flood-suppressing
//! notification relay.  All decision logic lives here and is verified;
//! clocks, sockets, threads and serialization are supplied by the caller.

pub mod probe;
pub mod push;
pub mod relay;
pub mod stats;
pub mod tool;
