//! What can go wrong while candidates are gathered.

use vstd::prelude::*;

verus! {

/// A failure of the completer.
#[derive(Debug, Clone, Copy, PartialEq, Eq, Structural)]
pub enum CompletionError {
    /// No search path is set.
    PathNotSet,
}

impl CompletionError {
    /// The text of the failure, as it is shown.
    pub fn message(&self) -> (text: String)
        ensures
            text@ == "PATH env var not set"@,
    {
        match self {
            CompletionError::PathNotSet => "PATH env var not set".to_owned(),
        }
    }
}

} // verus!
