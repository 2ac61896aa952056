//! Pattern compilation and matching through the `regex` crate, behind
//! trusted wrappers.
//!
//! Which patterns compile, and where a pattern first matches in a line,
//! are functions of the texts alone; both are given names here
//! (`pattern_compiles`, `first_match`) rather than restated, and every
//! contract of the library speaks of those names.

use vstd::prelude::*;

verus! {

use crate::error::GrepError;

#[verifier::external_type_specification]
#[verifier::external_body]
pub struct ExRegex(regex::Regex);

/// Whether `regex::Regex::new` accepts the pattern text `p`.
pub uninterp spec fn pattern_compiles(p: Seq<char>) -> bool;

/// The byte range of the leftmost-first match of the pattern `p` in the
/// UTF-8 text whose bytes are `line`, if any.
pub uninterp spec fn first_match(p: Seq<char>, line: Seq<u8>) -> Option<(usize, usize)>;

/// A compiled pattern, cheap to query once built, shared read-only by
/// every file a run processes.
pub struct Matcher {
    regex: regex::Regex,
    pattern_text: String,
}

impl Matcher {
    /// The pattern text this matcher was compiled from.
    pub closed spec fn pattern(&self) -> Seq<char> {
        self.pattern_text@
    }

    /// Relies on `regex::Regex::new`: whether a pattern is accepted
    /// (valid syntax, within the default compiled-size limit) is a
    /// function of the pattern text alone.
    #[verifier::external_body]
    pub fn compile(pattern: &str) -> (r: Result<Matcher, GrepError>)
        ensures
            r is Ok <==> pattern_compiles(pattern@),
            r is Ok ==> r.unwrap().pattern() == pattern@,
            r matches Err(e) ==> e == GrepError::Pattern,
    {
        match regex::Regex::new(pattern) {
            Ok(re) => Ok(Matcher { regex: re, pattern_text: pattern.to_string() }),
            Err(_) => Err(GrepError::Pattern),
        }
    }

    /// Relies on `regex::Regex::clone`: it shares the compiled program,
    /// so the copy matches as the original does. Concurrent tasks each
    /// take a cheap copy instead of recompiling or locking.
    #[verifier::external_body]
    pub fn duplicate(&self) -> (r: Matcher)
        ensures
            r.pattern() == self.pattern(),
    {
        Matcher { regex: self.regex.clone(), pattern_text: self.pattern_text.clone() }
    }

    /// Relies on `regex::Regex::find`: it returns the byte range of the
    /// leftmost-first match, a valid range into the haystack,
    /// deterministically in the pattern and haystack texts. A line that
    /// is not valid UTF-8 has no match.
    #[verifier::external_body]
    pub fn find_first(&self, line: &Vec<u8>) -> (r: Option<(usize, usize)>)
        ensures
            r == first_match(self.pattern(), line@),
            r matches Some(m) ==> m.0 <= m.1 <= line@.len(),
    {
        match std::str::from_utf8(line.as_slice()) {
            Ok(s) => self.regex.find(s).map(|m| (m.start(), m.end())),
            Err(_) => None,
        }
    }
}

} // verus!
