//! The errors of the extraction.

use vstd::prelude::*;

verus! {

/// Why the public API of a file could not be extracted.
#[derive(Debug, PartialEq, Eq)]
pub enum ExtractionError {
    /// A file could not be read. The message names the file.
    Io(String),
    /// The source text has no valid syntax tree, or a node of the tree lacks
    /// a part that the extraction needs.
    Malformed(String),
}

impl ExtractionError {
    /// The text of the message.
    pub open spec fn text(self) -> Seq<char> {
        match self {
            ExtractionError::Io(message) => message@,
            ExtractionError::Malformed(message) => message@,
        }
    }

    /// The message of the error.
    pub fn message(&self) -> (message: String)
        ensures
            message@ == self.text(),
    {
        match self {
            ExtractionError::Io(message) => message.clone(),
            ExtractionError::Malformed(message) => message.clone(),
        }
    }
}

} // verus!
