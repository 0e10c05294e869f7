//! The ways in which a merge fails.

use vstd::prelude::*;

verus! {

/// A fatal failure of a merge. Each one ends the run.
#[derive(Clone, Debug, PartialEq, Eq)]
pub enum MergeError {
    /// The root path is not a directory. Holds the path.
    InvalidRoot(String),
    /// A glob pattern is malformed. Holds the pattern.
    InvalidPattern(String),
    /// Every pattern is well formed, but no matcher can be built for them
    /// together.
    InvalidPatternSet,
    /// A risk threshold was exceeded and the user did not confirm.
    AbortedByUser,
    /// No file of the tree was selected.
    NoMatch,
    /// A source file could not be read or a chunk could not be written.
    /// Holds the path.
    Io(String),
}

impl MergeError {
    /// The text of the message for this failure.
    pub open spec fn message_text(self) -> Seq<char> {
        match self {
            MergeError::InvalidRoot(path) => "treemerge only operates on directories: "@ + path@,
            MergeError::InvalidPattern(pattern) => "Invalid glob pattern: "@ + pattern@,
            MergeError::InvalidPatternSet => "The glob patterns cannot be compiled together."@,
            MergeError::AbortedByUser => "Aborted by user."@,
            MergeError::NoMatch => "No text files matched criteria."@,
            MergeError::Io(path) => "I/O failure on "@ + path@,
        }
    }

    /// A message that names the offending path or pattern, where there is one.
    pub fn message(&self) -> (text: String)
        ensures
            text@ == self.message_text(),
    {
        match self {
            MergeError::InvalidRoot(path) => String::from_str(
                "treemerge only operates on directories: ",
            ).concat(path.as_str()),
            MergeError::InvalidPattern(pattern) => String::from_str(
                "Invalid glob pattern: ",
            ).concat(pattern.as_str()),
            MergeError::InvalidPatternSet => String::from_str(
                "The glob patterns cannot be compiled together.",
            ),
            MergeError::AbortedByUser => String::from_str("Aborted by user."),
            MergeError::NoMatch => String::from_str("No text files matched criteria."),
            MergeError::Io(path) => String::from_str("I/O failure on ").concat(path.as_str()),
        }
    }
}

} // verus!
