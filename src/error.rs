//! The errors that editor operations report.
use vstd::prelude::*;

verus! {

/// Why an editor operation did not happen.
#[derive(Clone, Debug, PartialEq, Eq)]
pub enum EditorError {
    /// Saving a buffer that has no file path.
    NoFilePath,
    /// Closing a buffer that holds unsaved changes.
    UnsavedChanges,
    /// Saving when no buffer is current.
    NoCurrentBuffer,
    /// Reading or writing a file failed, for the reason given.
    Io(String),
}

} // verus!
