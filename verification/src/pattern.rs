//! Regular expressions over names, matched by the `regex` crate.

use vstd::prelude::*;

verus! {

/// Whether `regex::Regex::new` accepts `pattern`.
pub uninterp spec fn regex_compiles(pattern: Seq<char>) -> bool;

/// Whether `regex::Regex::is_match` finds a match of `pattern`, once
/// compiled, anywhere in `text`.
pub uninterp spec fn regex_matches(pattern: Seq<char>, text: Seq<char>) -> bool;

/// Compiles `pattern` with `regex::Regex::new` and searches `text` with
/// `regex::Regex::is_match`.
///
/// Trusted: whether the pattern compiles depends on the pattern alone,
/// whether it matches on the pattern and the text alone, and there is no
/// answer exactly where the pattern does not compile.
#[verifier::external_body]
fn regex_search(pattern: &str, text: &str) -> (found: Option<bool>)
    ensures
        found == (if regex_compiles(pattern@) {
            Some(regex_matches(pattern@, text@))
        } else {
            None::<bool>
        }),
{
    match regex::Regex::new(pattern) {
        Ok(re) => Some(re.is_match(text)),
        Err(_) => None,
    }
}

/// A regular expression that is known to compile.
pub struct Pattern {
    source: String,
}

impl View for Pattern {
    type V = Seq<char>;

    /// The text of the expression.
    closed spec fn view(&self) -> Seq<char> {
        self.source@
    }
}

impl Pattern {
    #[verifier::type_invariant]
    spec fn compiles(self) -> bool {
        regex_compiles(self.source@)
    }

    /// The pattern written as `source`, if that is a regular expression
    /// that compiles.
    pub fn new(source: &str) -> (pattern: Option<Pattern>)
        ensures
            pattern is Some <==> regex_compiles(source@),
            pattern matches Some(p) ==> p@ == source@,
    {
        match regex_search(source, "") {
            Some(_) => Some(Pattern { source: source.to_owned() }),
            None => None,
        }
    }

    /// The text of the expression.
    pub fn as_str(&self) -> (source: &str)
        ensures
            source@ == self@,
    {
        self.source.as_str()
    }

    /// Whether the expression matches anywhere in `text`.
    pub fn is_match(&self, text: &str) -> (hit: bool)
        ensures
            hit == regex_matches(self@, text@),
    {
        proof {
            use_type_invariant(self);
        }
        match regex_search(self.source.as_str(), text) {
            Some(hit) => hit,
            None => unreached(),
        }
    }
}

} // verus!
