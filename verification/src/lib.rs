//! Per-node network observability library for a container orchestrator.
//!
//! The library parses IPv4 packets into fixed-layout flow event records,
//! carries them through a bounded ring, attributes each event to a pod via
//! a cgroup-id / pod-IP cache, and folds events into aggregated 5-tuple
//! flows that a query surface filters, sorts and truncates.

use vstd::prelude::*;

pub mod aggregator;
pub mod cgroup;
pub mod classifier;
pub mod cli;
pub mod collector;
pub mod common;
pub mod dashboard;
pub mod decimal;
pub mod direction;
pub mod error;
pub mod events;
pub mod grpc_server;
pub mod ipv4;
pub mod k8s_types;
pub mod k8s_watcher;
pub mod loader;
pub mod maps;
pub mod pod_cache;
pub mod probe_loader;
pub mod protocol;
pub mod ring;

verus! {

/// The library's version string.
pub const VERSION: &'static str = "0.1.0";

} // verus!
