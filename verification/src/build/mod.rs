//! Build-time tooling: the capability registry and the capability ids.
pub mod capability_ids;
pub mod config;
pub mod helper;
pub mod laws;
pub mod manifest_laws;
pub mod activity_laws;
pub mod feature_graph;
pub mod gradle_laws;
pub mod registry;
