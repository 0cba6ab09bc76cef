//! Offline analysis of a package registry's on-disk index: parse per-package
//! version records, index them by name, resolve declared version requirements
//! to concrete versions (newest first), and build an acyclic dependency graph.

pub mod builder;
pub mod codec;
pub mod graph;
pub mod index;
pub mod parse;
pub mod record;
pub mod timefmt;
pub mod walk;
