//! Snapshot index and restore engine of a per-directory backup tool.

pub mod model;
pub mod paths;
pub mod store;
pub mod restore;
pub mod clock;
pub mod prune;
pub mod listing;
pub mod stats;
pub mod registry;
pub mod text;
pub mod daemon;
