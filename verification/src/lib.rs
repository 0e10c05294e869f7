//! Merge the text files of a directory tree into one or more output files.
//!
//! The crate decides which files of a scanned tree are merged, how the merged
//! text is laid out in chunks, and what each chunk holds. Reading the tree and
//! writing the chunks is left to the caller.
//!
//! - `cli`: the configuration of a merge.
//! - `scan`, `risk`: the entries of a walk, what they add up to, and the
//!   thresholds that call for a warning or a confirmation.
//! - `globs`: selection of paths by glob patterns, with the precedence of
//!   explicit patterns over built-in ones.
//! - `classify`: whether a file holds text.
//! - `writer`: headers, line counts, and the state that decides where a new
//!   chunk begins.
//! - `chunks`: the chunks of a merge as values, and what holds of them.
//! - `merge`: a whole run over a tree held in memory, and the stages by
//!   which a run over a tree on disk takes the same steps.
//! - `paths`, `strings`, `error`: names of outputs, helpers on characters,
//!   and the failures of a run.

pub mod chunks;
pub mod classify;
pub mod cli;
pub mod error;
pub mod globs;
pub mod merge;
pub mod paths;
pub mod risk;
pub mod scan;
pub mod strings;
pub mod writer;
