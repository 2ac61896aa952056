//! The library's error taxonomy. A bad pattern or a bad glob is fatal to a
//! run; I/O failures are scoped to a single file and never abort the run.

use vstd::prelude::*;

verus! {

/// What went wrong during a search run.
///
/// `Pattern` and `Glob` are configuration errors: they are surfaced before
/// any file is opened and abort the whole run. `Io` is file-scoped: it ends
/// the processing of one file only.
#[derive(Clone, Copy, Debug, PartialEq, Eq, Structural)]
pub enum GrepError {
    /// The regular expression did not compile.
    Pattern,
    /// The glob expression did not parse.
    Glob,
    /// Opening, reading or writing a file failed.
    Io,
}

impl GrepError {
    /// True for the errors that are fatal to a whole run rather than to a
    /// single file.
    pub fn is_fatal(&self) -> (r: bool)
        ensures
            r == (*self == GrepError::Pattern || *self == GrepError::Glob),
    {
        match self {
            GrepError::Pattern => true,
            GrepError::Glob => true,
            GrepError::Io => false,
        }
    }
}

} // verus!
