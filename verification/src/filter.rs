//! Rewriting version strings to comply with the AOSC package styling
//! rules: the string is lower-cased, classified by shape, and its
//! punctuation adjusted accordingly.

use vstd::prelude::*;
use vstd::string::StringExecFns;

use crate::pattern::Pattern;
use crate::pattern::re_is_match;
use crate::pattern::re_replace_all;
use crate::pattern::re_valid;
use crate::strconv::lower_of;
use crate::strconv::to_lowercase;

verus! {

/// Shape of a version string with a letter notation, e.g. `1.2.3-p5`;
/// the separator before the letter is removed.
pub open spec fn letter_notation_pat() -> Seq<char> {
    "^\\d+(?:\\.\\d+)+[-_~+^][a-z]\\d+$"@
}

/// Shape of a dash-separated date, e.g. `2023-05-07`; dashes become dots.
pub open spec fn dashes_pat() -> Seq<char> {
    "^\\d+(?:-\\d+)+$"@
}

/// Shape of an underscore-separated version, e.g. `10_2`; underscores
/// become dots.
pub open spec fn underscores_pat() -> Seq<char> {
    "^\\d+(?:_[0-9a-zA-Z]+)+$"@
}

/// Shape of a pre-release, e.g. `4.5-rc1`; the separator becomes `~`.
pub open spec fn release_types_pat() -> Seq<char> {
    "^\\d+(?:\\.\\d+)+[-_~^]*(?:rc|a|alpha|b|beta)\\d*$"@
}

/// Shape of a version with a revision, e.g. `5.4.3-2`; the dash becomes
/// `+`.
pub open spec fn revision_pat() -> Seq<char> {
    "^\\d+(?:\\.\\d+)+(?:-\\d+)+$"@
}

/// The recognised shapes of a version string.
#[derive(PartialEq, Eq, Debug, Clone, Copy, Structural)]
pub enum VersioningType {
    Normal,
    LetterNotation,
    Dashes,
    Underscores,
    ReleaseTypes,
    Revision,
}

/// Whether `pat` compiles and matches `s`.
pub open spec fn shape_matches(pat: Seq<char>, s: Seq<char>) -> bool {
    re_valid(pat) && re_is_match(pat, s)
}

/// The shape of a version string: the first matching shape wins, in the
/// order pre-release, dashed date, underscores, letter notation,
/// revision.
pub open spec fn version_type_spec(s: Seq<char>) -> VersioningType {
    if shape_matches(release_types_pat(), s) {
        VersioningType::ReleaseTypes
    } else if shape_matches(dashes_pat(), s) {
        VersioningType::Dashes
    } else if shape_matches(underscores_pat(), s) {
        VersioningType::Underscores
    } else if shape_matches(letter_notation_pat(), s) {
        VersioningType::LetterNotation
    } else if shape_matches(revision_pat(), s) {
        VersioningType::Revision
    } else {
        VersioningType::Normal
    }
}

fn shape_matches_exec(pat: &str, s: &str) -> (b: bool)
    ensures
        b == shape_matches(pat@, s@),
{
    match Pattern::compile(pat) {
        Ok(re) => re.is_match(s),
        Err(_) => false,
    }
}

/// Classify a version string's shape; see [`version_type_spec`].
pub fn version_type(version_string: &str) -> (r: VersioningType)
    ensures
        r == version_type_spec(version_string@),
{
    if shape_matches_exec("^\\d+(?:\\.\\d+)+[-_~^]*(?:rc|a|alpha|b|beta)\\d*$", version_string) {
        return VersioningType::ReleaseTypes;
    }
    if shape_matches_exec("^\\d+(?:-\\d+)+$", version_string) {
        return VersioningType::Dashes;
    }
    if shape_matches_exec("^\\d+(?:_[0-9a-zA-Z]+)+$", version_string) {
        return VersioningType::Underscores;
    }
    if shape_matches_exec("^\\d+(?:\\.\\d+)+[-_~+^][a-z]\\d+$", version_string) {
        return VersioningType::LetterNotation;
    }
    if shape_matches_exec("^\\d+(?:\\.\\d+)+(?:-\\d+)+$", version_string) {
        return VersioningType::Revision;
    }
    VersioningType::Normal
}

/// How a separator rewrite applies to the lower-cased string: nothing is
/// touched when the rewrite pattern does not compile.
pub open spec fn rewrite(pat: Seq<char>, s: Seq<char>, rep: Seq<char>) -> Seq<char> {
    if re_valid(pat) {
        re_replace_all(pat, s, rep)
    } else {
        s
    }
}

/// What complying makes of a version string: lower-case it, classify the
/// result, and rewrite its punctuation by shape.
pub open spec fn comply_spec(s: Seq<char>) -> Seq<char> {
    let lower = lower_of(s);
    match version_type_spec(lower) {
        VersioningType::Normal => lower,
        VersioningType::LetterNotation => rewrite("[-_~+^]"@, lower, ""@),
        VersioningType::Dashes => rewrite("[-_]"@, lower, "."@),
        VersioningType::Underscores => rewrite("[-_]"@, lower, "."@),
        VersioningType::ReleaseTypes => rewrite("[-+~^]*((?:rc|alpha|a|beta|b)\\S+)"@, lower, "~$1"@),
        VersioningType::Revision => rewrite("[-_~+^]"@, lower, "+"@),
    }
}

fn rewrite_exec(pat: &str, s: &str, rep: &str) -> (r: String)
    ensures
        r@ == rewrite(pat@, s@, rep@),
{
    match Pattern::compile(pat) {
        Ok(re) => re.replace_all(s, rep),
        Err(_) => String::from_str(s),
    }
}

/// A version string that can be rewritten into the house style.
pub trait VersionStr where Self: View<V = Seq<char>> {
    /// The string rewritten to comply with the styling rules; see
    /// [`comply_spec`].
    fn compily_with_aosc(&self) -> (r: String)
        ensures
            r@ == comply_spec(self@),
    ;
}

impl VersionStr for str {
    fn compily_with_aosc(&self) -> (r: String)
        ensures
            r@ == comply_spec(self@),
    {
        let lower = to_lowercase(self);
        let ty = version_type(lower.as_str());
        match ty {
            VersioningType::Normal => lower,
            VersioningType::LetterNotation => rewrite_exec("[-_~+^]", lower.as_str(), ""),
            VersioningType::Dashes => rewrite_exec("[-_]", lower.as_str(), "."),
            VersioningType::Underscores => rewrite_exec("[-_]", lower.as_str(), "."),
            VersioningType::ReleaseTypes => rewrite_exec(
                "[-+~^]*((?:rc|alpha|a|beta|b)\\S+)",
                lower.as_str(),
                "~$1",
            ),
            VersioningType::Revision => rewrite_exec("[-_~+^]", lower.as_str(), "+"),
        }
    }
}

} // verus!
