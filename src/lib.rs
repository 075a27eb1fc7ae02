//! The run orchestration engine of a graph-processing benchmark: the order
//! in which tiers, drivers, datasets and algorithms are visited, the choice of
//! cluster nodes to remove between tiers, the launch of each benchmark unit of
//! work into the cluster's single benchmark slot, the protocol that bounds
//! each run's metrics recording, and the bookkeeping of runs and their
//! visualizations.
//!
//! Everything here decides; the caller performs the actions against the
//! cluster, the run-id store, the control channel and the metrics service, and
//! hands back what happened.

pub mod clock;
pub mod config;
pub mod drivers;
pub mod launcher;
pub mod plan;
pub mod providers;
pub mod runs;
pub mod scaler;
pub mod settings;
pub mod sync;
pub mod text;
pub mod tiers;
