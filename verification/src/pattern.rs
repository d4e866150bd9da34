//! Regular expressions, held as values of the `regex` crate.

use vstd::prelude::*;

use regex::Regex as OutsideRegex;

verus! {

/// The regular expression of the `regex` crate.
#[verifier::external_type_specification]
#[verifier::external_body]
pub struct DeclaredRegex(OutsideRegex);

/// A pattern from which `regex::Regex::new` makes an expression that finds what this one finds: the
/// pattern that it was made from, where it was made so.
pub uninterp spec fn regex_pattern(regex: OutsideRegex) -> Seq<char>;

/// Whether `regex::Regex::new` takes the pattern.
pub uninterp spec fn regex_compiles(pattern: Seq<char>) -> bool;

/// Whether `regex::Regex::is_match` finds a match of the pattern in a text.
pub uninterp spec fn regex_matches(pattern: Seq<char>, text: Seq<char>) -> bool;

/// Calls `regex::Regex::new`; `None` where the pattern is not taken.
#[verifier::external_body]
fn outside_compile(pattern: &str) -> (regex: Option<OutsideRegex>)
    ensures
        regex is Some <==> regex_compiles(pattern@),
        regex matches Some(regex) ==> regex_pattern(regex) == pattern@,
{
    OutsideRegex::new(pattern).ok()
}

/// Calls `regex::Regex::is_match` on a text.
#[verifier::external_body]
fn outside_is_match(regex: &OutsideRegex, text: &str) -> (found: bool)
    ensures
        found == regex_matches(regex_pattern(*regex), text@),
{
    regex.is_match(text)
}

/// Calls `regex::Regex::clone`, which gives the same expression.
#[verifier::external_body]
fn outside_copy_regex(regex: &OutsideRegex) -> (copy: OutsideRegex)
    ensures
        regex_pattern(copy) == regex_pattern(*regex),
{
    regex.clone()
}

/// The error for a pattern that is no regular expression.
#[derive(Clone, Copy, Debug, PartialEq, Eq, Structural)]
pub struct InvalidPattern;

/// A regular expression.
pub struct Regex {
    inner: OutsideRegex,
}

impl View for Regex {
    type V = Seq<char>;

    closed spec fn view(&self) -> Seq<char> {
        regex_pattern(self.inner)
    }
}

impl Regex {
    /// Compiles a pattern.
    pub fn new(pattern: &str) -> (compiled: Result<Regex, InvalidPattern>)
        ensures
            compiled is Ok <==> regex_compiles(pattern@),
            compiled matches Ok(regex) ==> regex@ == pattern@,
    {
        match outside_compile(pattern) {
            Some(inner) => Ok(Regex { inner }),
            None => Err(InvalidPattern),
        }
    }

    /// Whether the expression matches somewhere in the text.
    pub fn is_match(&self, text: &str) -> (found: bool)
        ensures
            found == regex_matches(self@, text@),
    {
        outside_is_match(&self.inner, text)
    }

    /// A copy of the expression.
    pub fn copy(&self) -> (regex: Regex)
        ensures
            regex@ == self@,
    {
        Regex { inner: outside_copy_regex(&self.inner) }
    }
}

} // verus!
