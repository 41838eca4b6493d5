//! Flow-sensitive scalar type inference for an AWK-like language.
//!
//! The pass walks a program tree once, gives every expression node one of
//! three scalar classifications, and reports the first name that is used
//! both as a scalar and as an array.
//!
//! - `ast`: the tree, and its view as a mathematical value.
//! - `lattice`: the classifications and their join.
//! - `scalars`: the persistent environment of scalar types, and its merge.
//! - `names`: the set of array names.
//! - `error`: the two conflicts.
//! - `model`: what the pass computes, as functions on tree views.
//! - `shape`: what the pass leaves alone.
//! - `typing`: the walk itself; `typing::analyze` is the entry point.
//! - `laws`: what holds of every run.

pub mod ast;
pub mod error;
pub mod lattice;
pub mod laws;
pub mod model;
pub mod names;
pub mod scalars;
pub mod shape;
pub mod typing;
