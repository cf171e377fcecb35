//! The errors that document validation, path resolution and template
//! expansion can report. Every error is terminal for the whole run; the
//! caller decides how to report it and exit.

use vstd::prelude::*;

verus! {

/// What went wrong while validating a document or resolving a path.
#[derive(Debug)]
pub enum GenError {
    /// A required top-level section (`templates` or `data`) is absent.
    MissingSection { section: String },
    /// A path segment is absent from the mapping it was looked up in, or an
    /// intermediate node is not a mapping. Carries the offending segment and
    /// the full path as given.
    PathNotFound { segment: String, path: String },
}

} // verus!
