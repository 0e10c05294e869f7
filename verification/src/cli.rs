//! The resolved configuration of one merge.

use vstd::prelude::*;
use crate::paths::{default_output, default_output_name};

verus! {

/// How the header above each merged file is drawn.
#[derive(Copy, Clone, PartialEq, Eq, Structural, Debug)]
pub enum HeaderStyle {
    /// One line: `>>> ` and the path.
    Plain,
    /// One line: ten hash signs, a space and the path.
    Hash,
    /// Two lines: the path, and equals signs below it.
    Underline,
}

/// The configuration of one merge, fully resolved.
#[derive(Clone, Debug)]
pub struct Args {
    /// Root directory to process.
    pub path: String,
    /// Output file name; when absent it is derived from the root's name.
    pub output: Option<String>,
    /// Glob patterns that select a path whatever else matches it.
    pub includes: Vec<String>,
    /// Glob patterns that reject a path.
    pub exclude: Vec<String>,
    /// Extensions to which the merge is limited; any extension if empty.
    pub ext: Vec<String>,
    /// Switches the built-in exclude patterns off.
    pub all_files: bool,
    /// The number of lines behind which the output is split. A file is
    /// never divided.
    pub split_every: Option<usize>,
    /// The style of the header above each file.
    pub header_style: HeaderStyle,
    /// Report what would be merged, and write nothing.
    pub dry_run: bool,
    /// Go on without asking when a risk threshold is exceeded.
    pub no_confirm: bool,
    /// Follow symbolic links to directories during the walk.
    pub follow_symlinks: bool,
    /// Report progress in detail.
    pub verbose: bool,
}

impl Args {
    /// The name of the output: the one configured, or else the default for
    /// the root.
    pub open spec fn output_name(self) -> Seq<char> {
        match self.output {
            Some(name) => name@,
            None => default_output(self.path@),
        }
    }

    /// The name of the output.
    pub fn output_base(&self) -> (name: String)
        ensures
            name@ == self.output_name(),
    {
        match &self.output {
            Some(name) => name.clone(),
            None => default_output_name(self.path.as_str()),
        }
    }
}

} // verus!
