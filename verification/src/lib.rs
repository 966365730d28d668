//! Capability-based runtime for role-scoped agents: manifests compile into an
//! authoritative policy, and every tool request is decided against it.

pub mod text;
pub mod json;
pub mod paths;
pub mod manifest;
pub mod policy;
pub mod tools;
pub mod tool_output;
pub mod audit;
pub mod sandbox;
pub mod runner;
pub mod model;
pub mod session;
pub mod report;
pub mod app_state;
