//! Orchestration of weighted CPU control groups and the threads bound to them.
//!
//! The crate plans every interaction with the control-group tree as a plain
//! [`gateway::GatewayOp`] value and decides, from the outcome of each one, what
//! happens next. Performing an operation on the real tree, spawning threads and
//! joining them is left to the caller; [`memory::MemoryHierarchy`] performs the
//! same operations on a tree held in memory.
//!
//! - [`node`], [`wire`] and [`text`]: the paths of the tree, its attributes
//!   and the grammar of their values.
//! - [`gateway`], [`model`] and [`memory`]: the operations, the rules they
//!   follow, and a tree that follows them.
//! - [`manager`]: delegating controllers, managing groups, binding threads.
//! - [`workload`]: the workload and the stopwatch around it.
//! - [`config`], [`orchestrator`], [`plan`] and [`report`]: a benchmark run
//!   from its configuration to its report.
//! - [`rehearsal`]: a whole run against a tree held in memory.
//! - [`tree_laws`] and [`run_laws`]: what is proved of trees and of runs.

pub mod config;
pub mod error;
pub mod gateway;
pub mod manager;
pub mod memory;
pub mod model;
pub mod node;
pub mod orchestrator;
pub mod plan;
pub mod rehearsal;
pub mod report;
pub mod run_laws;
pub mod text;
pub mod tree_laws;
pub mod wire;
pub mod workload;
