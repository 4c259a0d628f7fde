//! A lightweight continuous-integration engine: pipelines are directed
//! acyclic graphs of shell steps, validated structurally and executed by a
//! dependency-ordered scheduler with failure propagation and cancellation.
//!
//! The crate verifies the engine's core: the status model, the pipeline
//! validator, the dependency graph, and the scheduler's state machine.
//! Process launching, persistence and transport are left to thin adapters
//! around this library.

pub mod status;
pub mod util;
pub mod model;
pub mod validate;
pub mod exec;
pub mod engine;
pub mod config;
pub mod cli_config;
pub mod tracker;
pub mod artifact;
pub mod workspace;
pub mod executors;
pub mod logger;
