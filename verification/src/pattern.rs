//! The compiled search pattern. Compilation and matching are done by the
//! `regex` crate; everything the contracts say about a match goes through
//! the uninterpreted `regex_matches`, so the library's own reasoning never
//! depends on what any particular pattern matches.

use vstd::prelude::*;

verus! {

/// What `regex::Regex::is_match` returns on haystack `text` for a regex
/// compiled from `pattern`. Matching reads nothing but the compiled
/// pattern and the haystack, so the result is a fixed function of the two.
pub uninterp spec fn regex_matches(pattern: Seq<char>, text: Seq<char>) -> bool;

/// Whether `regex::Regex::new` accepts `pattern`. Compilation reads
/// nothing but the pattern text, so acceptance is a fixed function of it.
pub uninterp spec fn regex_valid(pattern: Seq<char>) -> bool;

#[verifier::external_type_specification]
#[verifier::external_body]
pub struct ExRegex(regex::Regex);

/// A compiled pattern, paired with the text it was compiled from. The
/// fields are private: every `Pattern` comes out of `Pattern::new`, so the
/// regex inside always corresponds to the recorded source text.
pub struct Pattern {
    re: regex::Regex,
    source: String,
}

impl View for Pattern {
    type V = Seq<char>;

    closed spec fn view(&self) -> Seq<char> {
        self.source@
    }
}

impl Pattern {
    /// Relies on `regex::Regex::new`: it returns `Ok` exactly when the
    /// pattern text is a valid regex, and compiling the same text always
    /// yields a regex with the same matching behaviour.
    #[verifier::external_body]
    fn compile(source: &str) -> (r: Option<Pattern>)
        ensures
            r is Some <==> regex_valid(source@),
            r matches Some(p) ==> p@ == source@,
    {
        match regex::Regex::new(source) {
            Ok(re) => Some(Pattern { re, source: source.to_string() }),
            Err(_) => None,
        }
    }

    /// Compile `source`; `None` exactly when the regex crate rejects it.
    pub fn new(source: &str) -> (r: Option<Pattern>)
        ensures
            r is Some <==> regex_valid(source@),
            r matches Some(p) ==> p@ == source@,
    {
        Pattern::compile(source)
    }

    /// Relies on `regex::Regex::is_match`: whether the pattern matches
    /// anywhere in `text` depends only on the pattern source this regex
    /// was compiled from and on `text`.
    #[verifier::external_body]
    pub(crate) fn is_match(&self, text: &str) -> (r: bool)
        ensures
            r == regex_matches(self@, text@),
    {
        self.re.is_match(text)
    }
}

} // verus!
