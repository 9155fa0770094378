//! What can go wrong in a run.

use vstd::prelude::*;

verus! {

/// The failures of a run. Only the first, and the last two, end a run; an
/// invalid configuration is answered with the built-in table, and a file
/// without extension is passed over.
#[derive(Debug, Clone, Copy, PartialEq, Eq, Structural)]
pub enum SortError {
    /// The target directory, or one of its entries, could not be read.
    DirectoryUnreadable,
    /// The configuration could not be read or is not well formed.
    InvalidConfig,
    /// A file has no extension to classify it by.
    NoExtension,
    /// The folder of a category could not be created.
    DirectoryCreateFailed,
    /// A file could not be renamed into the folder of its category.
    MoveFailed,
}

} // verus!
