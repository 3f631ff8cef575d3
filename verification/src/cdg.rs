//! The claim dependency graph: typed, weighted, directed edges between
//! claims, and the structural metrics computed from them.

pub mod types;
pub mod weight;
pub mod graph;
pub mod model;
pub mod resolve;
pub mod centre;
pub mod strata;
pub mod table;
pub mod orphans;
pub mod metrics;
pub mod diff;
pub mod laws;
pub mod input;
