//! Tracking of the top-level directories of a watched tree, and the
//! classification of raw create/remove notifications into creations,
//! removals and moves of those directories.

pub mod path;
pub mod registry;
pub mod resolver;
pub mod classifier;
pub mod laws;
