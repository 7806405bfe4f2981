//! Planning and bookkeeping for a batch job that re-encodes the PNG and JPEG
//! files of one directory tree as JPEG files in a mirrored tree.
//!
//! The crate decides and counts; its caller walks the tree, reads and writes
//! the files, and runs the workers. Paths are slash-separated text.
//!
//! - [`classify`] tells which paths name an image, by their extension.
//! - [`discover`] gathers the candidates of a walk and tallies them by kind.
//! - [`mapping`] gives each candidate its place below the output root.
//! - [`convert`] leads the conversion of one candidate through its steps.
//! - [`progress`] counts the candidates that are done and keeps the status
//!   text.
//! - [`pool`] sizes the worker pool.
//! - [`startup`] settles the roots and the failures that end a run early.
//! - [`path`] holds the model of paths on which the others rest.

pub mod classify;
pub mod convert;
pub mod discover;
pub mod mapping;
pub mod path;
pub mod pool;
pub mod progress;
pub mod startup;
