//! Readiness patterns: a regular expression kept together with its source text.
use vstd::prelude::*;

verus! {

#[verifier::external_type_specification]
#[verifier::external_body]
pub struct ExRegex(regex::Regex);

#[verifier::external_type_specification]
#[verifier::external_body]
pub struct ExRegexError(regex::Error);

/// Whether `regex` accepts the pattern text (valid syntax, within the default size limit).
pub uninterp spec fn regex_compiles(pattern: Seq<char>) -> bool;

/// How many successive non-overlapping matches of the pattern `regex` finds in the text.
pub uninterp spec fn match_count(pattern: Seq<char>, text: Seq<char>) -> nat;

/// Relies on `regex::Regex::new`: it fails exactly on patterns it does not accept,
/// which depends on the pattern text alone.
#[verifier::external_body]
fn compile_regex(source: &str) -> (r: Result<regex::Regex, regex::Error>)
    ensures
        r is Ok <==> regex_compiles(source@),
{
    regex::Regex::new(source)
}

/// A readiness pattern. Its regex is always the one compiled from `source`:
/// the fields are private and `Pattern::new` is the only constructor.
pub struct Pattern {
    source: String,
    regex: regex::Regex,
}

/// Relies on `regex::Regex::find_iter`: the number of successive non-overlapping
/// matches of the pattern in `text`.
#[verifier::external_body]
fn count_regex_matches(p: &Pattern, text: &str) -> (r: usize)
    ensures
        r as nat == match_count(p@, text@),
{
    p.regex.find_iter(text).count()
}

/// The pattern text was rejected by the regex engine.
#[derive(Debug, Clone, PartialEq, Eq)]
pub struct InvalidPattern {
    pub source: String,
}

impl View for Pattern {
    type V = Seq<char>;

    closed spec fn view(&self) -> Seq<char> {
        self.source@
    }
}

impl Pattern {
    /// Compiles `source`; fails exactly when the regex engine rejects it.
    pub fn new(source: &str) -> (r: Result<Pattern, InvalidPattern>)
        ensures
            r is Ok <==> regex_compiles(source@),
            r matches Ok(p) ==> p@ == source@,
            r matches Err(e) ==> e.source@ == source@,
    {
        match compile_regex(source) {
            Ok(regex) => Ok(Pattern { source: String::from_str(source), regex }),
            Err(_) => Err(InvalidPattern { source: String::from_str(source) }),
        }
    }

    /// The text the pattern was compiled from.
    pub fn source(&self) -> (r: &str)
        ensures
            r@ == self@,
    {
        self.source.as_str()
    }

    /// How many non-overlapping occurrences of the pattern `text` holds.
    pub fn count_in(&self, text: &str) -> (r: usize)
        ensures
            r as nat == match_count(self@, text@),
    {
        count_regex_matches(self, text)
    }
}

} // verus!
