//! Synchronizes a local tree of data files against a versioned manifest of
//! content-addressed files in remote object storage.
//!
//! The core is pure: a content-addressed snapshot of a directory tree is
//! compared against a target manifest, filtered by the user's selection of
//! optional data packs, and the minimal delete/fetch action sets are derived.
//! Transfers tolerate partial failure without losing completed work.

pub mod checksum;
pub mod driver;
pub mod gz;
pub mod manifest;
pub mod packs;
pub mod reconcile;
pub mod remote;
pub mod snapshot;
pub mod strutil;
