//! Compiled regular expressions, wrapped for use from verified code.
//!
//! The regex engine itself is outside the library; what each call returns
//! is named by an uninterpreted function of the pattern and the haystack,
//! so that callers can state exactly how they use the result without the
//! library pretending to know what the engine computes.

use vstd::prelude::*;
use vstd::string::StringExecFns;

use crate::errors::ConfigError;

verus! {

#[verifier::external_type_specification]
#[verifier::external_body]
pub struct ExRegex(regex::Regex);

#[verifier::external_type_specification]
#[verifier::external_body]
pub struct ExRegexError(regex::Error);

/// Whether the pattern compiles as a regular expression.
pub uninterp spec fn re_valid(pat: Seq<char>) -> bool;

/// The number of capture-group slots of the compiled pattern, the whole
/// match counted as slot zero.
pub uninterp spec fn re_captures_count(pat: Seq<char>) -> nat;

/// Whether the pattern matches somewhere in the haystack.
pub uninterp spec fn re_is_match(pat: Seq<char>, hay: Seq<char>) -> bool;

/// The text of capture group one of the first match, if the pattern
/// matches and that group takes part in the match.
pub uninterp spec fn re_capture_first(pat: Seq<char>, hay: Seq<char>) -> Option<Seq<char>>;

/// For every non-overlapping match in order: the text of capture group
/// one, if that group takes part in the match.
pub uninterp spec fn re_all_capture_first(pat: Seq<char>, hay: Seq<char>) -> Seq<
    Option<Seq<char>>,
>;

/// The haystack with every match replaced by the replacement text.
pub uninterp spec fn re_replace_all(pat: Seq<char>, hay: Seq<char>, rep: Seq<char>) -> Seq<char>;

/// The haystack with the first match replaced by the replacement text.
pub uninterp spec fn re_replace_first(pat: Seq<char>, hay: Seq<char>, rep: Seq<char>) -> Seq<char>;

/// The views of a sequence of optional strings.
pub open spec fn opt_views(os: Seq<Option<String>>) -> Seq<Option<Seq<char>>> {
    os.map_values(
        |o: Option<String>|
            match o {
                Some(s) => Some(s@),
                None => None,
            },
    )
}

/// A compiled regular expression together with its source text.
pub struct Pattern {
    text: String,
    re: regex::Regex,
}

impl Pattern {
    /// The pattern this value was compiled from.
    pub closed spec fn pat(&self) -> Seq<char> {
        self.text@
    }

    /// Relies on `regex::Regex::new`: compiling a pattern is a function of
    /// the pattern text alone.
    #[verifier::external_body]
    fn new_raw(pattern: &str) -> (r: Result<Pattern, regex::Error>)
        ensures
            r is Ok <==> re_valid(pattern@),
            r matches Ok(p) ==> p.pat() == pattern@,
    {
        match regex::Regex::new(pattern) {
            Ok(re) => Ok(Pattern { text: pattern.to_string(), re }),
            Err(e) => Err(e),
        }
    }

    /// Compile a pattern; a pattern that does not compile is an
    /// [`ConfigError::InvalidPattern`] carrying the pattern text.
    pub fn compile(pattern: &str) -> (r: Result<Pattern, ConfigError>)
        ensures
            r is Ok <==> re_valid(pattern@),
            r matches Ok(p) ==> p.pat() == pattern@,
            r matches Err(e) ==> (e matches ConfigError::InvalidPattern(s) && s@ == pattern@),
    {
        match Self::new_raw(pattern) {
            Ok(p) => Ok(p),
            Err(_) => Err(ConfigError::InvalidPattern(String::from_str(pattern))),
        }
    }

    /// Relies on `regex::Regex::captures_len`.
    #[verifier::external_body]
    pub fn captures_len(&self) -> (r: usize)
        ensures
            r as nat == re_captures_count(self.pat()),
    {
        self.re.captures_len()
    }

    /// Relies on `regex::Regex::is_match`.
    #[verifier::external_body]
    pub fn is_match(&self, hay: &str) -> (r: bool)
        ensures
            r == re_is_match(self.pat(), hay@),
    {
        self.re.is_match(hay)
    }

    /// Relies on `regex::Regex::captures`, reading capture group one of
    /// the first match.
    #[verifier::external_body]
    pub fn capture_first(&self, hay: &str) -> (r: Option<String>)
        ensures
            match r {
                Some(s) => re_capture_first(self.pat(), hay@) == Some(s@),
                None => re_capture_first(self.pat(), hay@) is None,
            },
    {
        self.re.captures(hay).and_then(|c| c.get(1)).map(|m| m.as_str().to_string())
    }

    /// Relies on `regex::Regex::captures_iter`, reading capture group one
    /// of every match in order.
    #[verifier::external_body]
    pub fn all_capture_first(&self, hay: &str) -> (r: Vec<Option<String>>)
        ensures
            opt_views(r@) == re_all_capture_first(self.pat(), hay@),
    {
        let mut out = Vec::new();
        for caps in self.re.captures_iter(hay) {
            out.push(caps.get(1).map(|m| m.as_str().to_string()));
        }
        out
    }

    /// Relies on `regex::Regex::replace_all`.
    #[verifier::external_body]
    pub fn replace_all(&self, hay: &str, rep: &str) -> (r: String)
        ensures
            r@ == re_replace_all(self.pat(), hay@, rep@),
    {
        self.re.replace_all(hay, rep).to_string()
    }

    /// Relies on `regex::Regex::replace`, which rewrites the first match
    /// only.
    #[verifier::external_body]
    pub fn replace_first(&self, hay: &str, rep: &str) -> (r: String)
        ensures
            r@ == re_replace_first(self.pat(), hay@, rep@),
    {
        self.re.replace(hay, rep).to_string()
    }
}

} // verus!
