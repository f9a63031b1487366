//! Incremental reconciliation of a media catalog against a directory tree.
//!
//! The catalog records one entry per media file (path, size, modification
//! time, content hash).  A reconciliation pass walks the tree, classifies
//! each file against the catalog (unchanged / modified / renamed / duplicate /
//! new), emits the minimal set of catalog mutations, and finally sweeps the
//! entries whose files are gone.  All classification and bookkeeping logic is
//! verified; file, database and encoder access stay with the caller, which
//! drives a [`engine::ReconcilePass`] step by step.

pub mod config;
pub mod digest;
pub mod encode;
pub mod engine;
pub mod errors;
pub mod index;
pub mod laws;
pub mod model;
pub mod paths;
pub mod utils;
