//! Publication integrity checks for a versioned source package.
//!
//! Two independent passes share one package description: a working-tree
//! cleanliness check that honours the manifest's `include` / `exclude`
//! filters, and a content check that compares the entries of a published
//! archive with the local files they were built from.

pub mod text;
pub mod filter;
pub mod clean;
pub mod content;
pub mod command;
pub mod laws;
