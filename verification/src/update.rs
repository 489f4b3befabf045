//! Judging one package's resolved version against its recorded one: which
//! recorded field counts, how the resolved string is normalised, which
//! warnings the comparison raises, and how the descriptor text is
//! rewritten.  File reading and writing stay with the caller.

use vstd::prelude::*;
use vstd::string::StrSliceExecFns;
use vstd::string::StringExecFns;

use crate::config::Config;
use crate::errors::CheckError;
use crate::errors::ConfigError;
use crate::filter::comply_spec;
use crate::filter::VersionStr;
use crate::pattern::Pattern;
use crate::pattern::re_replace_first;
use crate::pattern::re_valid;
use crate::strconv::starts_with_str;
use crate::strconv::trim_str;
use crate::strconv::trimmed_of;
use crate::vercmp::ComparisonResult;
use crate::vercmp::compare_spec;
use crate::vercmp::version_compare;

verus! {

/// A remark raised while judging an update, at the level of character
/// sequences.
pub enum WarningModel {
    /// The house-style rewrite was applied; holds the version before it.
    ComplianceApplied(Seq<char>),
    /// The recorded version is compound (it holds a `+`).
    CompoundVersion(Seq<char>),
    /// The recorded version carries a source-snapshot marker; holds it.
    SnapshotVersion(Seq<char>),
    /// The resolved version ranks below the recorded one; holds both.
    PossibleDowngrade(Seq<char>, Seq<char>),
}

/// A remark raised while judging an update.
#[derive(Debug, Clone, PartialEq, Eq)]
pub enum UpdateWarning {
    /// The house-style rewrite was applied; holds the version before it.
    ComplianceApplied(String),
    /// The recorded version is compound (it holds a `+`).
    CompoundVersion(String),
    /// The recorded version carries a source-snapshot marker; holds it.
    SnapshotVersion(String),
    /// The resolved version ranks below the recorded one; holds both.
    PossibleDowngrade(String, String),
}

impl View for UpdateWarning {
    type V = WarningModel;

    open spec fn view(&self) -> WarningModel {
        match self {
            UpdateWarning::ComplianceApplied(s) => WarningModel::ComplianceApplied(s@),
            UpdateWarning::CompoundVersion(s) => WarningModel::CompoundVersion(s@),
            UpdateWarning::SnapshotVersion(s) => WarningModel::SnapshotVersion(s@),
            UpdateWarning::PossibleDowngrade(a, b) => WarningModel::PossibleDowngrade(a@, b@),
        }
    }
}

/// The views of a sequence of warnings.
pub open spec fn warning_views(ws: Seq<UpdateWarning>) -> Seq<WarningModel> {
    ws.map_values(|w: UpdateWarning| w@)
}

/// Pick the recorded version out of a package descriptor: the upstream
/// field when it is present (second component true), else the plain
/// version field; a descriptor with neither is refused.  The value comes
/// back trimmed.
pub fn pick_current_version(desc: &Config) -> (r: Result<(String, bool), CheckError>)
    ensures
        desc.spec_get("UPSTREAM_VER"@) matches Some(v) ==> (r matches Ok(p) && p.0@ == trimmed_of(
            v,
        ) && p.1 == true),
        desc.spec_get("UPSTREAM_VER"@) is None ==> (desc.spec_get("VER"@) matches Some(v) ==> (r
            matches Ok(p) && p.0@ == trimmed_of(v) && p.1 == false)),
        (desc.spec_get("UPSTREAM_VER"@) is None && desc.spec_get("VER"@) is None) ==> (r matches
            Err(e) && (e matches CheckError::Config(ConfigError::MissingField(f, _)) && f@
            == "VER"@)),
{
    match desc.get("UPSTREAM_VER") {
        Some(v) => Ok((trim_str(v.as_str()), true)),
        None => {
            match desc.get("VER") {
                Some(v) => Ok((trim_str(v.as_str()), false)),
                None => Err(CheckError::Config(ConfigError::MissingField(
                    String::from_str("VER"),
                    String::from_str("recorded version"),
                ))),
            }
        },
    }
}

/// The resolved string trimmed, with one leading `v` stripped.
pub open spec fn normalized_spec(resolved: Seq<char>) -> Seq<char> {
    let t = trimmed_of(resolved);
    if t.len() > 0 && t[0] == 'v' {
        t.drop_first()
    } else {
        t
    }
}

/// The version an update settles on: the normalised resolved string,
/// rewritten to the house style when compliance is asked for.
pub open spec fn assess_after(resolved: Seq<char>, comply: bool) -> Seq<char> {
    if comply {
        comply_spec(normalized_spec(resolved))
    } else {
        normalized_spec(resolved)
    }
}

/// Whether `s` holds a `+` anywhere.
pub open spec fn contains_plus(s: Seq<char>) -> bool {
    exists|i: int| 0 <= i < s.len() && s[i] == '+'
}

/// The four markers of a source-snapshot version.
pub open spec fn vcs_markers() -> Seq<Seq<char>> {
    seq!["+git"@, "+hg"@, "+svn"@, "+bzr"@]
}

/// Whether marker `k` stands at position `i` of `s`.
pub open spec fn marker_at(s: Seq<char>, i: int, k: int) -> bool {
    let m = vcs_markers()[k];
    0 <= i && i + m.len() <= s.len() && s.subrange(i, i + m.len()) == m
}

/// The first marker found scanning left to right, markers tried in
/// order at each position.
pub open spec fn first_marker_from(s: Seq<char>, i: int) -> Option<int>
    decreases s.len() - i,
    when 0 <= i <= s.len()
{
    if i >= s.len() {
        None
    } else if marker_at(s, i, 0) {
        Some(0)
    } else if marker_at(s, i, 1) {
        Some(1)
    } else if marker_at(s, i, 2) {
        Some(2)
    } else if marker_at(s, i, 3) {
        Some(3)
    } else {
        first_marker_from(s, i + 1)
    }
}

fn matches_chars_at(v: &Vec<char>, i: usize, pat: &Vec<char>) -> (b: bool)
    requires
        i <= v@.len(),
    ensures
        b == (i + pat@.len() <= v@.len() && v@.subrange(i as int, i + pat@.len()) == pat@),
{
    let m = pat.len();
    let n = v.len();
    if n - i < m {
        return false;
    }
    let mut k: usize = 0;
    while k < m
        invariant
            k <= m,
            m == pat@.len(),
            n == v@.len(),
            i + m <= n,
            forall|j: int| 0 <= j < k ==> v@[i + j] == pat@[j],
        decreases m - k,
    {
        if v[i + k] != pat[k] {
            proof {
                assert(v@.subrange(i as int, i + pat@.len())[k as int] != pat@[k as int]);
            }
            return false;
        }
        k += 1;
    }
    proof {
        assert(v@.subrange(i as int, i + pat@.len()) =~= pat@);
    }
    true
}

/// Find the first source-snapshot marker in `s`; see
/// [`first_marker_from`].
pub fn find_vcs_marker(s: &str) -> (r: Option<String>)
    ensures
        r is Some <==> first_marker_from(s@, 0) is Some,
        r matches Some(m) ==> (first_marker_from(s@, 0) matches Some(k) && m@ == vcs_markers()[k]),
{
    let v = crate::vercmp::chars_of(s);
    let git = crate::vercmp::chars_of("+git");
    let hg = crate::vercmp::chars_of("+hg");
    let svn = crate::vercmp::chars_of("+svn");
    let bzr = crate::vercmp::chars_of("+bzr");
    let n = v.len();
    let mut i: usize = 0;
    while i < n
        invariant
            i <= n,
            n == v@.len(),
            v@ == s@,
            git@ == "+git"@ && hg@ == "+hg"@ && svn@ == "+svn"@ && bzr@ == "+bzr"@,
            first_marker_from(s@, 0) == first_marker_from(s@, i as int),
        decreases n - i,
    {
        if matches_chars_at(&v, i, &git) {
            return Some(String::from_str("+git"));
        }
        if matches_chars_at(&v, i, &hg) {
            return Some(String::from_str("+hg"));
        }
        if matches_chars_at(&v, i, &svn) {
            return Some(String::from_str("+svn"));
        }
        if matches_chars_at(&v, i, &bzr) {
            return Some(String::from_str("+bzr"));
        }
        i += 1;
    }
    None
}

fn contains_plus_exec(s: &str) -> (b: bool)
    ensures
        b == contains_plus(s@),
{
    let v = crate::vercmp::chars_of(s);
    let n = v.len();
    let mut i: usize = 0;
    while i < n
        invariant
            i <= n,
            n == v@.len(),
            v@ == s@,
            forall|j: int| 0 <= j < i ==> s@[j] != '+',
        decreases n - i,
    {
        if v[i] == '+' {
            return true;
        }
        i += 1;
    }
    false
}

/// The remarks an update raises, in the order they are raised: the
/// compliance note; then nothing more when the version did not change;
/// else the compound and snapshot notes for a compound recorded version
/// outside compliance mode, and the downgrade note when the resolved
/// version ranks below the recorded one.
pub open spec fn assess_warnings(current: Seq<char>, resolved: Seq<char>, comply: bool) -> Seq<
    WarningModel,
> {
    let base: Seq<WarningModel> = if comply {
        seq![WarningModel::ComplianceApplied(normalized_spec(resolved))]
    } else {
        Seq::empty()
    };
    let after = assess_after(resolved, comply);
    if current == after {
        base
    } else {
        let w1 = if contains_plus(current) && !comply {
            let w0 = base + seq![WarningModel::CompoundVersion(current)];
            match first_marker_from(current, 0) {
                Some(k) => w0 + seq![WarningModel::SnapshotVersion(vcs_markers()[k])],
                None => w0,
            }
        } else {
            base
        };
        if compare_spec(current, after) == ComparisonResult::Greater {
            w1 + seq![WarningModel::PossibleDowngrade(current, after)]
        } else {
            w1
        }
    }
}

/// Judge a resolved version against the recorded one: the settled
/// version and the remarks; see [`assess_after`] and
/// [`assess_warnings`].
pub fn assess_update(current: &str, resolved: &str, comply: bool) -> (r: (
    String,
    Vec<UpdateWarning>,
))
    ensures
        r.0@ == assess_after(resolved@, comply),
        warning_views(r.1@) == assess_warnings(current@, resolved@, comply),
{
    let trimmed = trim_str(resolved);
    let stripped: String = if trimmed.as_str().unicode_len() > 0 && trimmed.as_str().get_char(0)
        == 'v' {
        let n = trimmed.as_str().unicode_len();
        String::from_str(trimmed.as_str().substring_char(1, n))
    } else {
        trimmed
    };
    proof {
        assert(stripped@ =~= normalized_spec(resolved@));
    }
    let mut warnings: Vec<UpdateWarning> = Vec::new();
    let after: String = if comply {
        let complied = stripped.as_str().compily_with_aosc();
        warnings.push(UpdateWarning::ComplianceApplied(stripped));
        complied
    } else {
        stripped
    };
    let ghost base = warning_views(warnings@);
    proof {
        assert(base =~= (if comply {
            seq![WarningModel::ComplianceApplied(normalized_spec(resolved@))]
        } else {
            Seq::<WarningModel>::empty()
        }));
    }
    let current_string = String::from_str(current);
    if current_string == after {
        proof {
            assert(warning_views(warnings@) =~= assess_warnings(current@, resolved@, comply));
        }
        return (after, warnings);
    }
    if contains_plus_exec(current) && !comply {
        let ghost w_before = warning_views(warnings@);
        warnings.push(UpdateWarning::CompoundVersion(current_string.clone()));
        proof {
            assert(warning_views(warnings@) =~= w_before.push(
                WarningModel::CompoundVersion(current@),
            ));
        }
        match find_vcs_marker(current) {
            Some(m) => {
                let ghost w_mid = warning_views(warnings@);
                warnings.push(UpdateWarning::SnapshotVersion(m));
                proof {
                    assert(warning_views(warnings@) =~= w_mid.push(
                        WarningModel::SnapshotVersion(
                            vcs_markers()[first_marker_from(current@, 0).unwrap()],
                        ),
                    ));
                }
            },
            None => {},
        }
    }
    if version_compare(current, after.as_str()) == ComparisonResult::Greater {
        let ghost w_last = warning_views(warnings@);
        warnings.push(UpdateWarning::PossibleDowngrade(current_string, after.clone()));
        proof {
            assert(warning_views(warnings@) =~= w_last.push(
                WarningModel::PossibleDowngrade(current@, after@),
            ));
        }
    }
    proof {
        assert(warning_views(warnings@) =~= assess_warnings(current@, resolved@, comply));
    }
    (after, warnings)
}

/// How the descriptor text is rewritten: the first line assigning the
/// chosen version field is replaced by an assignment of the new version,
/// and the first release-number assignment is removed.  A rewrite whose
/// pattern fails to compile leaves the text as it stands.
pub open spec fn rewritten_content(content: Seq<char>, new: Seq<char>, upstream: bool) -> Seq<
    char,
> {
    let pat = if upstream {
        "UPSTREAM_VER=.+"@
    } else {
        "VER=.+"@
    };
    let rep = if upstream {
        "UPSTREAM_VER="@ + new
    } else {
        "VER="@ + new
    };
    let step1 = if re_valid(pat) {
        re_replace_first(pat, content, rep)
    } else {
        content
    };
    let rel_pat = "REL=.+\\s+"@;
    if re_valid(rel_pat) {
        re_replace_first(rel_pat, step1, ""@)
    } else {
        step1
    }
}

/// ASCII whitespace, as the word splitting below understands it.
pub open spec fn is_ascii_ws(c: char) -> bool {
    c == ' ' || c == '\t' || c == '\n' || c == '\r' || (c as u32) == 0x0c
}

/// End of the run of ASCII whitespace that starts at `i`.
pub open spec fn ws_run_end(s: Seq<char>, i: int) -> int
    decreases s.len() - i,
    when 0 <= i <= s.len()
{
    if i < s.len() && is_ascii_ws(s[i]) {
        ws_run_end(s, i + 1)
    } else {
        i
    }
}

/// End of the run of non-whitespace that starts at `i`.
pub open spec fn word_run_end(s: Seq<char>, i: int) -> int
    decreases s.len() - i,
    when 0 <= i <= s.len()
{
    if i < s.len() && !is_ascii_ws(s[i]) {
        word_run_end(s, i + 1)
    } else {
        i
    }
}

proof fn lemma_ws_run_bounds(s: Seq<char>, i: int)
    requires
        0 <= i <= s.len(),
    ensures
        i <= ws_run_end(s, i) <= s.len(),
        ws_run_end(s, i) < s.len() ==> !is_ascii_ws(s[ws_run_end(s, i)]),
    decreases s.len() - i,
{
    if i < s.len() && is_ascii_ws(s[i]) {
        lemma_ws_run_bounds(s, i + 1);
    }
}

proof fn lemma_word_run_bounds(s: Seq<char>, i: int)
    requires
        0 <= i <= s.len(),
    ensures
        i <= word_run_end(s, i) <= s.len(),
        (i < s.len() && !is_ascii_ws(s[i])) ==> i + 1 <= word_run_end(s, i),
    decreases s.len() - i,
{
    if i < s.len() && !is_ascii_ws(s[i]) {
        lemma_word_run_bounds(s, i + 1);
    }
}

/// The whitespace-separated words of `s` from `i` on.
pub open spec fn words_from(s: Seq<char>, i: int) -> Seq<Seq<char>>
    decreases s.len() - i,
    when 0 <= i <= s.len()
    via words_from_decreases
{
    let a = ws_run_end(s, i);
    if a >= s.len() {
        Seq::empty()
    } else {
        let b = word_run_end(s, a);
        seq![s.subrange(a, b)] + words_from(s, b)
    }
}

#[via_fn]
proof fn words_from_decreases(s: Seq<char>, i: int) {
    lemma_ws_run_bounds(s, i);
    if ws_run_end(s, i) < s.len() {
        lemma_word_run_bounds(s, ws_run_end(s, i));
    }
}

/// The whitespace-separated words of `s`.
pub open spec fn words_of(s: Seq<char>) -> Seq<Seq<char>> {
    words_from(s, 0)
}

/// Split a string into its whitespace-separated words.
fn split_words(s: &str) -> (r: Vec<String>)
    ensures
        crate::vercmp::str_views(r@) == words_of(s@),
{
    let v = crate::vercmp::chars_of(s);
    let n = v.len();
    let mut out: Vec<String> = Vec::new();
    let mut i: usize = 0;
    proof {
        lemma_ws_run_bounds(s@, 0);
    }
    while i < n
        invariant
            i <= n,
            n == v@.len(),
            v@ == s@,
            words_of(s@) =~= crate::vercmp::str_views(out@) + words_from(s@, i as int),
        decreases n - i,
    {
        let mut a: usize = i;
        while a < n && (v[a] == ' ' || v[a] == '\t' || v[a] == '\n' || v[a] == '\r' || v[a] as u32
            == 0x0c)
            invariant
                i <= a <= n,
                n == v@.len(),
                v@ == s@,
                ws_run_end(s@, i as int) == ws_run_end(s@, a as int),
            decreases n - a,
        {
            a += 1;
        }
        if a == n {
            proof {
                assert(words_from(s@, i as int).len() == 0);
                assert(crate::vercmp::str_views(out@) =~= words_of(s@));
            }
            return out;
        }
        let mut b: usize = a;
        while b < n && !(v[b] == ' ' || v[b] == '\t' || v[b] == '\n' || v[b] == '\r' || v[b] as u32
            == 0x0c)
            invariant
                a <= b <= n,
                n == v@.len(),
                v@ == s@,
                word_run_end(s@, a as int) == word_run_end(s@, b as int),
            decreases n - b,
        {
            b += 1;
        }
        let word = String::from_str(s.substring_char(a, b));
        let ghost old_out = out@;
        out.push(word);
        proof {
            assert(crate::vercmp::str_views(out@) =~= crate::vercmp::str_views(old_out).push(
                s@.subrange(a as int, b as int),
            ));
            assert(words_from(s@, i as int) =~= seq![s@.subrange(a as int, b as int)] + words_from(
                s@,
                b as int,
            ));
        }
        i = b;
        proof {
            lemma_word_run_bounds(s@, a as int);
        }
    }
    proof {
        assert(words_from(s@, n as int).len() == 0);
        assert(crate::vercmp::str_views(out@) =~= words_of(s@));
    }
    out
}

/// Whether the two values share a word at the same position.
pub open spec fn urls_pair_match(v1: Seq<char>, v2: Seq<char>) -> bool {
    exists|j: int|
        0 <= j && j < words_of(v1).len() && j < words_of(v2).len() && words_of(v1)[j] == words_of(
            v2,
        )[j]
}

fn urls_pair_match_exec(v1: &str, v2: &str) -> (r: bool)
    ensures
        r == urls_pair_match(v1@, v2@),
{
    let w1 = split_words(v1);
    let w2 = split_words(v2);
    let m = if w1.len() < w2.len() {
        w1.len()
    } else {
        w2.len()
    };
    let mut j: usize = 0;
    while j < m
        invariant
            j <= m,
            m <= w1@.len() && m <= w2@.len(),
            m == w1@.len() || m == w2@.len(),
            crate::vercmp::str_views(w1@) == words_of(v1@),
            crate::vercmp::str_views(w2@) == words_of(v2@),
            forall|k: int| 0 <= k < j ==> words_of(v1@)[k] != words_of(v2@)[k],
        decreases m - j,
    {
        if w1[j] == w2[j] {
            proof {
                assert(words_of(v1@)[j as int] == w1@[j as int]@);
                assert(words_of(v2@)[j as int] == w2@[j as int]@);
            }
            return true;
        }
        proof {
            assert(words_of(v1@)[j as int] == w1@[j as int]@);
            assert(words_of(v2@)[j as int] == w2@[j as int]@);
        }
        j += 1;
    }
    false
}

/// Whether pair `i` of `a` witnesses a shared hard-coded source line: its
/// key names sources, `b` binds the same key, and the two values share a
/// word position.
pub open spec fn url_hit(a: &Config, b: &Config, i: int) -> bool {
    &&& crate::strconv::has_char_prefix(a.pairs()[i].0, "SRCS"@)
    &&& b.spec_get(a.pairs()[i].0) matches Some(v2) && urls_pair_match(a.pairs()[i].1, v2)
}

/// Whether the old and the rewritten descriptor share a hard-coded
/// source address: some sources key of `a` is bound in `b` too, with a
/// word in common at the same position.
pub fn validate_urls(a: &Config, b: &Config) -> (r: bool)
    ensures
        r == exists|i: int| 0 <= i < a.pairs().len() && #[trigger] url_hit(a, b, i),
{
    let n = a.len();
    let mut i: usize = 0;
    while i < n
        invariant
            i <= n,
            n == a.pairs().len(),
            forall|j: int| 0 <= j < i ==> !(#[trigger] url_hit(a, b, j)),
        decreases n - i,
    {
        let key = a.key_at(i);
        if starts_with_str(key.as_str(), "SRCS") {
            match b.get(key.as_str()) {
                Some(other) => {
                    let value = a.value_at(i);
                    if urls_pair_match_exec(value.as_str(), other.as_str()) {
                        proof {
                            assert(url_hit(a, b, i as int));
                        }
                        return true;
                    }
                },
                None => {},
            }
        }
        i += 1;
    }
    false
}

/// Rewrite a descriptor's text for the new version; see
/// [`rewritten_content`].
pub fn update_version_content(content: &str, new: &str, replace_upstream: bool) -> (r: String)
    ensures
        r@ == rewritten_content(content@, new@, replace_upstream),
{
    let step1: String = if replace_upstream {
        match Pattern::compile("UPSTREAM_VER=.+") {
            Ok(re) => {
                let mut rep = String::from_str("UPSTREAM_VER=");
                rep.append(new);
                re.replace_first(content, rep.as_str())
            },
            Err(_) => String::from_str(content),
        }
    } else {
        match Pattern::compile("VER=.+") {
            Ok(re) => {
                let mut rep = String::from_str("VER=");
                rep.append(new);
                re.replace_first(content, rep.as_str())
            },
            Err(_) => String::from_str(content),
        }
    };
    match Pattern::compile("REL=.+\\s+") {
        Ok(re) => re.replace_first(step1.as_str(), ""),
        Err(_) => step1,
    }
}

} // verus!
