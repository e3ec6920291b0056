//! Route patterns: regular expressions from the `regex` crate, matched at
//! the start of the text.

use vstd::prelude::*;

verus! {

#[verifier::external_type_specification]
#[verifier::external_body]
pub struct ExRegex(regex::Regex);

#[verifier::external_type_specification]
#[verifier::external_body]
pub struct ExRegexError(regex::Error);

/// `pattern` is a regular expression that the `regex` crate compiles.
pub uninterp spec fn pattern_compiles(pattern: Seq<char>) -> bool;

/// The byte offset in `text` at which the leftmost match of the regular
/// expression `pattern` starts, if it matches at all.
pub uninterp spec fn leftmost_match_start(pattern: Seq<char>, text: Seq<char>) -> Option<nat>;

/// The regular expression `pattern` matches a prefix of `text`: a match
/// starts at offset 0, which is then the leftmost one.
pub open spec fn matches_at_start(pattern: Seq<char>, text: Seq<char>) -> bool {
    leftmost_match_start(pattern, text) == Some(0nat)
}

/// A compiled regular expression together with its source.
pub struct Pattern {
    source: String,
    regex: regex::Regex,
}

impl View for Pattern {
    type V = Seq<char>;

    closed spec fn view(&self) -> Seq<char> {
        self.source@
    }
}

impl Pattern {
    /// Relies on `regex::Regex::new`: it fails exactly on the sources that
    /// do not compile. The pattern is built here and nowhere else, so its
    /// regular expression is always the one compiled from its source.
    #[verifier::external_body]
    pub(crate) fn compile(source: &str) -> (r: Result<Pattern, regex::Error>)
        ensures
            r is Ok <==> pattern_compiles(source@),
            r matches Ok(p) ==> p@ == source@,
    {
        regex::Regex::new(source).map(|regex| Pattern { source: source.to_string(), regex })
    }

    /// Relies on `regex::Regex::find`: it returns the leftmost match, whose
    /// start is taken.
    #[verifier::external_body]
    fn leftmost_start(&self, text: &str) -> (r: Option<usize>)
        ensures
            match leftmost_match_start(self@, text@) {
                Some(s) => r matches Some(x) && x == s,
                None => r is None,
            },
    {
        self.regex.find(text).map(|m| m.start())
    }

    /// The pattern matches `text` from its first character on.
    pub fn matches_start(&self, text: &str) -> (r: bool)
        ensures
            r == matches_at_start(self@, text@),
    {
        match self.leftmost_start(text) {
            Some(s) => s == 0,
            None => false,
        }
    }
}

} // verus!
