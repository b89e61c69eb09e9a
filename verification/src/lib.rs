//! Selects the best installable artifact per package version for a
//! dependency solver, and extracts statically declared requirements from
//! project manifests.

pub mod compat;
pub mod distribution;
pub mod flat_index;
pub mod lexical;
pub mod names;
pub mod policy;
pub mod prioritized;
pub mod requires_dist;
pub mod version;
