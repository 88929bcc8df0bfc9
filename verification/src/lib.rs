//! Core of a workload-driven load generator for cache and RPC services:
//! keyspace sampling, pacing, work items, and the per-connection driver
//! state machine with its outcome counters.

pub mod accounting;
pub mod config;
pub mod driver;
pub mod generator;
pub mod keyspace;
pub mod metrics;
pub mod protocol;
pub mod runtime;
pub mod sampling;
pub mod text;
pub mod workload;

pub use config::{Config, Settings};
pub use driver::Driver;
pub use generator::Generator;
pub use keyspace::{KeyDistribution, Keyspace};
pub use metrics::Counters;
pub use runtime::Builder;
pub use workload::{Add, ClientRequest, ClientWorkItem, Delete, Get, HashDelete, HashExists, Put};
