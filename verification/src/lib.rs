//! A recursive, fault-tolerant source-tree formatter.
//!
//! The library walks a tree of filesystem observations, reformats every
//! eligible source file into its canonical form, and aggregates byte-count
//! statistics while isolating per-file failures from one another.  Parsing
//! and pretty-printing are delegated to outside libraries; everything the
//! walker itself decides is verified.

pub mod model;
pub mod paths;
pub mod reformat;
pub mod semantics;
pub mod walker;
pub mod laws;
pub mod messages;
