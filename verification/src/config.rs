//! The search request: pattern text and glob text, fixed at startup.

use vstd::prelude::*;

verus! {

use crate::error::GrepError;
use crate::pattern::{pattern_compiles, Matcher};

/// A search request: the pattern text and the glob text. Created once at
/// startup and never mutated; owned by the orchestration for the run's
/// duration.
pub struct GrepConfig {
    pub pattern: String,
    pub glob: String,
}

impl GrepConfig {
    pub fn new(pattern: String, glob: String) -> (c: GrepConfig)
        ensures
            c.pattern@ == pattern@,
            c.glob@ == glob@,
    {
        GrepConfig { pattern, glob }
    }

    /// Compiles the request's pattern. This happens once per run, before
    /// any file is touched: a pattern that does not compile aborts the
    /// whole run, and a compiled matcher is shared by every file.
    pub fn matcher(&self) -> (r: Result<Matcher, GrepError>)
        ensures
            r is Ok <==> pattern_compiles(self.pattern@),
            r matches Ok(m) ==> m.pattern() == self.pattern@,
            r matches Err(e) ==> e == GrepError::Pattern,
    {
        Matcher::compile(self.pattern.as_str())
    }
}

} // verus!
