//! The match predicate applied to heading text, built on the `regex` crate.
//!
//! A [`Matcher`] couples a compiled regular expression with the pattern text
//! it was built from and its case-sensitivity setting. Matching is substring
//! search: the pattern must be found somewhere within the text, not equal
//! the whole of it.

use vstd::prelude::*;

verus! {

#[verifier::external_type_specification]
#[verifier::external_body]
pub struct ExRegex(regex::Regex);

/// Whether `pattern`, compiled under the given case-sensitivity setting, is
/// found within `text`: the result of `regex::Regex::is_match`, a function
/// of these three values alone.
pub uninterp spec fn regex_found(pattern: Seq<char>, case_sensitive: bool, text: Seq<char>) -> bool;

/// Whether `pattern` compiles as a regular expression under the given
/// case-sensitivity setting: the success of `regex::RegexBuilder::build`, a
/// function of these two values alone.
pub uninterp spec fn regex_compiles(pattern: Seq<char>, case_sensitive: bool) -> bool;

/// A compiled match predicate: the pattern text, the case-sensitivity flag,
/// and the regular expression built from them.
pub struct Matcher {
    pattern: String,
    case_sensitive: bool,
    regex: regex::Regex,
}

impl Matcher {
    /// The pattern text this matcher was built from.
    pub closed spec fn spec_pattern(self) -> Seq<char> {
        self.pattern@
    }

    /// Whether this matcher distinguishes letter case.
    pub closed spec fn spec_case_sensitive(self) -> bool {
        self.case_sensitive
    }

    /// Relies on `regex::RegexBuilder`: `new(pattern)` followed by
    /// `case_insensitive(!case_sensitive)` and `build()` succeeds exactly
    /// when the pattern compiles under that setting, and then returns the
    /// compiled form of `pattern`.
    #[verifier::external_body]
    pub fn new(pattern: &str, case_sensitive: bool) -> (r: Option<Matcher>)
        ensures
            r is Some <==> regex_compiles(pattern@, case_sensitive),
            r matches Some(m) ==> {
                &&& m.spec_pattern() == pattern@
                &&& m.spec_case_sensitive() == case_sensitive
            },
    {
        match regex::RegexBuilder::new(pattern).case_insensitive(!case_sensitive).build() {
            Ok(regex) => Some(Matcher { pattern: pattern.to_owned(), case_sensitive, regex }),
            Err(_) => None,
        }
    }

    /// Relies on `regex::Regex::is_match`: whether the pattern is found
    /// within `text`; the result depends only on the pattern, the
    /// case-sensitivity setting it was compiled under, and `text`.
    #[verifier::external_body]
    pub fn is_match(&self, text: &str) -> (r: bool)
        ensures
            r == regex_found(self.spec_pattern(), self.spec_case_sensitive(), text@),
    {
        self.regex.is_match(text)
    }
}

} // verus!
