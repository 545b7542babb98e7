//! File name formats: each wraps one compiled regular expression that is
//! tested against a path's base name.
//!
//! The regular-expression engine is the `regex` crate; what a pattern
//! matches is named by the uninterpreted function [`regex_matches`] and
//! taken on trust at the two wrappers below, which are the only places a
//! `Format` is built or run. Both fields stay private to this module, so a
//! `Format` always carries the pattern its automaton was compiled from.

use vstd::prelude::*;

use crate::paths::{file_name_spec, file_name};

verus! {

#[verifier::external_type_specification]
#[verifier::external_body]
pub struct ExRegex(regex::Regex);

/// What `regex::Regex::is_match` returns for a pattern and a text: the
/// result is a function of the two alone.
pub uninterp spec fn regex_matches(pattern: Seq<char>, text: Seq<char>) -> bool;

/// A file name format.
///
/// This is a wrapper around a regular expression that describes a file name
/// format, kept beside the pattern it was compiled from.
#[derive(Debug)]
pub struct Format {
    pattern: String,
    regex: regex::Regex,
}

impl Format {
    /// The pattern this format was compiled from.
    pub closed spec fn pattern_spec(&self) -> Seq<char> {
        self.pattern@
    }

    /// Compile a format from a regular-expression pattern; `None` when the
    /// pattern is not a valid regular expression.
    ///
    /// Relies on `regex::Regex::new`: it compiles the given pattern, and the
    /// compiled value is stored beside that pattern.
    #[verifier::external_body]
    pub fn new(pattern: &str) -> (r: Option<Format>)
        ensures
            r matches Some(f) ==> f.pattern_spec() == pattern@,
    {
        match regex::Regex::new(pattern) {
            Ok(re) => Some(Format { pattern: pattern.to_string(), regex: re }),
            Err(_) => None,
        }
    }

    /// The pattern this format was compiled from, as text.
    pub fn pattern(&self) -> (r: &str)
        ensures
            r@ == self.pattern_spec(),
    {
        self.pattern.as_str()
    }

    /// Relies on `regex::Regex::is_match`: whether the compiled pattern — the
    /// one held beside the automaton — matches anywhere in `text`, a function
    /// of the pattern and the text alone.
    #[verifier::external_body]
    fn is_match(&self, text: &str) -> (r: bool)
        ensures
            r == regex_matches(self.pattern_spec(), text@),
    {
        self.regex.is_match(text)
    }

    /// Whether this format matches a path: its pattern is tested against the
    /// path's base name, and a path without one yields `None`.
    pub open spec fn matches_spec(&self, path: Seq<char>) -> Option<bool> {
        if file_name_spec(path).len() == 0 {
            None
        } else {
            Some(regex_matches(self.pattern_spec(), file_name_spec(path)))
        }
    }

    /// Check if a file name matches the format.
    pub fn matches(&self, path: &str) -> (r: Option<bool>)
        ensures
            r == self.matches_spec(path@),
    {
        match file_name(path) {
            Some(name) => Some(self.is_match(name)),
            None => None,
        }
    }
}

} // verus!
