//! Content filter: compiles a text pattern into a matcher and decides which
//! inbound bytes reach the display buffer.
//!
//! An empty pattern means no matcher (everything passes). A compilation
//! failure leaves the previously active matcher in place: the prior
//! behaviour continues until the pattern is corrected.

use vstd::prelude::*;
use crate::codec::lossy_decode;
use crate::codec::lossy_utf8;

verus! {

#[verifier::external_type_specification]
#[verifier::external_body]
pub struct ExRegex(regex::Regex);

/// Whether the pattern engine accepts `pattern`.
pub uninterp spec fn pattern_valid(pattern: Seq<char>) -> bool;

/// Whether the matcher compiled from `pattern` matches anywhere in `text`.
pub uninterp spec fn pattern_match(pattern: Seq<char>, text: Seq<char>) -> bool;

/// A compiled matcher together with the pattern it was compiled from.
pub struct CompiledMatcher {
    regex: regex::Regex,
    pattern: String,
}

impl CompiledMatcher {
    /// The pattern this matcher was compiled from.
    pub closed spec fn spec_pattern(&self) -> Seq<char> {
        self.pattern@
    }
}

/// Relies on `regex::Regex::new`: compilation succeeds or fails on the
/// pattern text alone; the error value renders as text.
#[verifier::external_body]
fn compile_matcher(pattern: &str) -> (r: Result<CompiledMatcher, String>)
    ensures
        r is Ok <==> pattern_valid(pattern@),
        r matches Ok(m) ==> m.spec_pattern() == pattern@,
{
    match regex::Regex::new(pattern) {
        Ok(re) => Ok(CompiledMatcher { regex: re, pattern: pattern.to_owned() }),
        Err(e) => Err(e.to_string()),
    }
}

/// Relies on `regex::Regex::is_match`: an unanchored search whose result
/// depends on the pattern and the haystack alone.
#[verifier::external_body]
fn matcher_is_match(m: &CompiledMatcher, text: &str) -> (r: bool)
    ensures
        r == pattern_match(m.spec_pattern(), text@),
{
    m.regex.is_match(text)
}

/// The pattern filter applied to inbound data.
pub struct ContentFilter {
    /// The pattern text last handed to `set_pattern`.
    pub pattern: String,
    /// The active matcher, if any.
    pub matcher: Option<CompiledMatcher>,
}

impl ContentFilter {
    /// The pattern of the active matcher, if one is active.
    pub open spec fn active_pattern(&self) -> Option<Seq<char>> {
        match self.matcher {
            Option::None => Option::None,
            Option::Some(m) => Option::Some(m.spec_pattern()),
        }
    }

    /// Whether `text` passes the filter: everything passes when no matcher
    /// is active, otherwise the matcher decides.
    pub open spec fn spec_matches(&self, text: Seq<char>) -> bool {
        match self.active_pattern() {
            Option::None => true,
            Option::Some(p) => pattern_match(p, text),
        }
    }

    /// A filter with no matcher: everything passes.
    pub fn new() -> (r: ContentFilter)
        ensures
            r.pattern@ == Seq::<char>::empty(),
            r.active_pattern() is None,
    {
        ContentFilter { pattern: String::new(), matcher: None }
    }

    /// Install `pattern`: an empty pattern clears the matcher, a valid one
    /// replaces it, and an invalid one leaves the previous matcher active
    /// and reports the compilation error.
    pub fn set_pattern(&mut self, pattern: &str) -> (err: Option<String>)
        ensures
            final(self).pattern@ == pattern@,
            pattern@.len() == 0 ==> final(self).active_pattern() is None && err is None,
            pattern@.len() > 0 && pattern_valid(pattern@) ==> final(self).active_pattern()
                == Option::Some(pattern@) && err is None,
            pattern@.len() > 0 && !pattern_valid(pattern@) ==> final(self).active_pattern() == old(
                self,
            ).active_pattern() && err is Some,
    {
        self.pattern = pattern.to_owned();
        if pattern.is_empty() {
            self.matcher = None;
            None
        } else {
            match compile_matcher(pattern) {
                Ok(m) => {
                    self.matcher = Some(m);
                    None
                },
                Err(e) => Some(e),
            }
        }
    }

    /// Whether the lossy text of `data` passes the filter.
    pub fn matches(&self, data: &[u8]) -> (r: bool)
        ensures
            r == self.spec_matches(lossy_decode(data@)),
    {
        match &self.matcher {
            None => true,
            Some(m) => {
                let text = lossy_utf8(data);
                matcher_is_match(m, text.as_str())
            },
        }
    }
}

/// Law: a filter without an active matcher (in particular one whose pattern
/// is empty) passes every text.
pub proof fn lemma_no_matcher_passes_all(f: &ContentFilter, text: Seq<char>)
    requires
        f.active_pattern() is None,
    ensures
        f.spec_matches(text),
{
}

} // verus!
