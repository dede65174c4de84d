//! Compiled detection patterns.
//!
//! Header styles carry user-supplied regular expressions: a skip pattern for
//! prologue lines and detection patterns for the first and last line of an
//! existing header. Matching is delegated to the `regex` crate; the engine
//! only needs that a match is a pure function of the pattern text and the
//! line, which the name `regex_match` captures.

use vstd::prelude::*;

verus! {

#[verifier::external_type_specification]
#[verifier::external_body]
pub struct ExRegex(regex::Regex);

/// Name for the result of `regex::Regex::is_match`: whether the pattern,
/// compiled from the given source text, matches anywhere in the given text.
pub uninterp spec fn regex_match(pattern: Seq<char>, text: Seq<char>) -> bool;

/// Name for the outcome of `regex::Regex::new`: whether the pattern text
/// compiles, which depends on the text alone.
pub uninterp spec fn regex_ok(pattern: Seq<char>) -> bool;

/// A compiled regular expression together with the source text it was
/// compiled from. A value is only ever built by `Pattern::compile`, which
/// stores the source it handed to the regex engine, so the two fields always
/// describe the same pattern.
pub struct Pattern {
    source: String,
    regex: regex::Regex,
}

impl Pattern {
    /// The pattern text this value was compiled from.
    pub closed spec fn src(&self) -> Seq<char> {
        self.source@
    }

    /// Relies on `regex::Regex::new`: compiles the pattern text, reporting
    /// malformed patterns as `None`; whether a pattern compiles is a pure
    /// function of its text.
    #[verifier::external_body]
    pub fn compile(source: &str) -> (r: Option<Pattern>)
        ensures
            (r is Some) == regex_ok(source@),
            r matches Some(p) ==> p.src() == source@,
    {
        match regex::Regex::new(source) {
            Ok(regex) => Some(Pattern { source: source.to_string(), regex }),
            Err(_) => None,
        }
    }

    /// The pattern text, as it was given to `compile`.
    pub fn source_text(&self) -> (r: String)
        ensures
            r@ == self.src(),
    {
        self.source.clone()
    }

    /// Relies on `regex::Regex::is_match`: whether the pattern matches
    /// anywhere in `text`, a pure function of the pattern source and the
    /// text.
    #[verifier::external_body]
    pub fn is_match(&self, text: &str) -> (r: bool)
        ensures
            r == regex_match(self.src(), text@),
    {
        self.regex.is_match(text)
    }
}

} // verus!
