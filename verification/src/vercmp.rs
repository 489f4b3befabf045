//! Total comparison of two version strings.
//!
//! The comparison first tries to read both strings as dot-separated
//! versions: the strings are split on the separators `.`, `-`, `_`, `~` and
//! `+`, and the pieces are compared pairwise.  A piece made of decimal
//! digits only counts as a number (leading zeroes do not matter); any other
//! piece is compared character by character; a numeric piece always ranks
//! above a non-numeric one, so a pre-release marker such as `rc1` ranks
//! below the bare release.  When one version is a prefix of the other, the
//! first extra piece decides: a numeric piece makes the longer version
//! greater (`1.0.1` above `1.0`), a non-numeric one makes it smaller
//! (`1.0-rc1` below `1.0`).  A string whose first piece is not numeric does
//! not parse as a version; when either side fails to parse, both sides are
//! compared by plain character order instead.  Either way every pair of
//! strings gets a definite answer.

use vstd::prelude::*;
use vstd::string::StrSliceExecFns;

verus! {

/// The outcome of comparing two version strings; the order is total.
#[derive(Clone, Copy, Debug, PartialEq, Eq, Structural)]
pub enum ComparisonResult {
    Less,
    Equal,
    Greater,
}

/// The opposite outcome: what the comparison of the swapped operands yields.
pub open spec fn flip(r: ComparisonResult) -> ComparisonResult {
    match r {
        ComparisonResult::Less => ComparisonResult::Greater,
        ComparisonResult::Equal => ComparisonResult::Equal,
        ComparisonResult::Greater => ComparisonResult::Less,
    }
}

/// Characters that split a version string into pieces.
pub open spec fn is_separator(c: char) -> bool {
    c == '.' || c == '-' || c == '_' || c == '~' || c == '+'
}

/// An ASCII decimal digit.
pub open spec fn is_ascii_digit(c: char) -> bool {
    ('0' as u32) <= (c as u32) && (c as u32) <= ('9' as u32)
}

/// A non-empty piece made of digits only.
pub open spec fn all_digits(c: Seq<char>) -> bool {
    c.len() > 0 && forall|i: int| 0 <= i < c.len() ==> is_ascii_digit(#[trigger] c[i])
}

/// Plain character-by-character comparison.
pub open spec fn lex_cmp(a: Seq<char>, b: Seq<char>) -> ComparisonResult
    decreases a.len(),
{
    if a.len() == 0 && b.len() == 0 {
        ComparisonResult::Equal
    } else if a.len() == 0 {
        ComparisonResult::Less
    } else if b.len() == 0 {
        ComparisonResult::Greater
    } else if (a[0] as u32) < (b[0] as u32) {
        ComparisonResult::Less
    } else if (b[0] as u32) < (a[0] as u32) {
        ComparisonResult::Greater
    } else {
        lex_cmp(a.drop_first(), b.drop_first())
    }
}

/// Index of the first character at or after `i` that is not `'0'`.
pub open spec fn zeros_end(s: Seq<char>, i: int) -> int
    decreases s.len() - i,
    when 0 <= i <= s.len()
{
    if i < s.len() && s[i] == '0' {
        zeros_end(s, i + 1)
    } else {
        i
    }
}

/// Numeric comparison of two digit pieces: leading zeroes are dropped, a
/// longer digit run is larger, equally long runs compare by digits.
pub open spec fn num_cmp(a: Seq<char>, b: Seq<char>) -> ComparisonResult {
    let sa = a.skip(zeros_end(a, 0));
    let sb = b.skip(zeros_end(b, 0));
    if sa.len() < sb.len() {
        ComparisonResult::Less
    } else if sb.len() < sa.len() {
        ComparisonResult::Greater
    } else {
        lex_cmp(sa, sb)
    }
}

/// Comparison of two pieces: numeric against numeric by value, any other
/// pair by characters, and a numeric piece above a non-numeric one.
pub open spec fn comp_cmp(a: Seq<char>, b: Seq<char>) -> ComparisonResult {
    if all_digits(a) && all_digits(b) {
        num_cmp(a, b)
    } else if all_digits(a) {
        ComparisonResult::Greater
    } else if all_digits(b) {
        ComparisonResult::Less
    } else {
        lex_cmp(a, b)
    }
}

/// Comparison of the first pieces of two piece lists, where a list that has
/// run out counts below a numeric piece but above a non-numeric one.
pub open spec fn head_cmp(xs: Seq<Seq<char>>, ys: Seq<Seq<char>>) -> ComparisonResult {
    if xs.len() == 0 && ys.len() == 0 {
        ComparisonResult::Equal
    } else if xs.len() == 0 {
        if all_digits(ys[0]) {
            ComparisonResult::Less
        } else {
            ComparisonResult::Greater
        }
    } else if ys.len() == 0 {
        if all_digits(xs[0]) {
            ComparisonResult::Greater
        } else {
            ComparisonResult::Less
        }
    } else {
        comp_cmp(xs[0], ys[0])
    }
}

/// Pairwise comparison of two piece lists; the first unequal pair decides.
pub open spec fn list_cmp(xs: Seq<Seq<char>>, ys: Seq<Seq<char>>) -> ComparisonResult
    decreases xs.len() + ys.len(),
{
    if xs.len() == 0 && ys.len() == 0 {
        ComparisonResult::Equal
    } else if head_cmp(xs, ys) != ComparisonResult::Equal {
        head_cmp(xs, ys)
    } else {
        list_cmp(xs.drop_first(), ys.drop_first())
    }
}

/// End of the piece that starts at `i`: the next separator, or the end.
pub open spec fn component_end(s: Seq<char>, i: int) -> int
    decreases s.len() - i,
    when 0 <= i <= s.len()
{
    if i < s.len() && !is_separator(s[i]) {
        component_end(s, i + 1)
    } else {
        i
    }
}

/// The piece starting at `i` never ends before `i` nor after the string.
pub proof fn lemma_component_end_bounds(s: Seq<char>, i: int)
    requires
        0 <= i <= s.len(),
    ensures
        i <= component_end(s, i) <= s.len(),
    decreases s.len() - i,
{
    if i < s.len() && !is_separator(s[i]) {
        lemma_component_end_bounds(s, i + 1);
    }
}

/// The pieces of `s` from position `i` on, split on separators.  A string
/// without separators is one piece; each separator opens a new piece, so
/// consecutive separators and a trailing separator yield empty pieces.
pub open spec fn components_from(s: Seq<char>, i: int) -> Seq<Seq<char>>
    decreases s.len() - i,
    when 0 <= i <= s.len()
    via components_from_decreases
{
    let e = component_end(s, i);
    if e < s.len() {
        seq![s.subrange(i, e)] + components_from(s, e + 1)
    } else {
        seq![s.subrange(i, e)]
    }
}

#[via_fn]
proof fn components_from_decreases(s: Seq<char>, i: int) {
    lemma_component_end_bounds(s, i);
}

/// All the pieces of `s`.
pub open spec fn components(s: Seq<char>) -> Seq<Seq<char>> {
    components_from(s, 0)
}

/// Whether `s` reads as a version: its first piece must be numeric.
pub open spec fn parses_as_version(s: Seq<char>) -> bool {
    all_digits(components(s)[0])
}

/// The full comparison: piecewise when both sides read as versions, plain
/// character order otherwise.
pub open spec fn compare_spec(a: Seq<char>, b: Seq<char>) -> ComparisonResult {
    if parses_as_version(a) && parses_as_version(b) {
        list_cmp(components(a), components(b))
    } else {
        lex_cmp(a, b)
    }
}

/// The views of a sequence of character vectors.
pub open spec fn views_of(cs: Seq<Vec<char>>) -> Seq<Seq<char>> {
    cs.map_values(|c: Vec<char>| c@)
}

/// The views of a sequence of strings.
pub open spec fn str_views(ss: Seq<String>) -> Seq<Seq<char>> {
    ss.map_values(|s: String| s@)
}

/// The candidate that a left-to-right scan retains: each candidate in turn
/// replaces the current best exactly when it compares strictly greater.
pub open spec fn best_of(vs: Seq<Seq<char>>) -> Seq<char>
    decreases vs.len(),
{
    if vs.len() == 0 {
        Seq::empty()
    } else if vs.len() == 1 {
        vs[0]
    } else {
        let b = best_of(vs.drop_last());
        if compare_spec(vs.last(), b) == ComparisonResult::Greater {
            vs.last()
        } else {
            b
        }
    }
}

proof fn lemma_lex_flip(a: Seq<char>, b: Seq<char>)
    ensures
        lex_cmp(b, a) == flip(lex_cmp(a, b)),
    decreases a.len() + b.len(),
{
    if a.len() > 0 && b.len() > 0 && !((a[0] as u32) < (b[0] as u32)) && !((b[0] as u32) < (a[0]
        as u32)) {
        lemma_lex_flip(a.drop_first(), b.drop_first());
    }
}

proof fn lemma_lex_refl(a: Seq<char>)
    ensures
        lex_cmp(a, a) == ComparisonResult::Equal,
    decreases a.len(),
{
    if a.len() > 0 {
        lemma_lex_refl(a.drop_first());
    }
}

proof fn lemma_num_flip(a: Seq<char>, b: Seq<char>)
    ensures
        num_cmp(b, a) == flip(num_cmp(a, b)),
{
    lemma_lex_flip(a.skip(zeros_end(a, 0)), b.skip(zeros_end(b, 0)));
}

proof fn lemma_comp_flip(a: Seq<char>, b: Seq<char>)
    ensures
        comp_cmp(b, a) == flip(comp_cmp(a, b)),
{
    if all_digits(a) && all_digits(b) {
        lemma_num_flip(a, b);
    } else if !all_digits(a) && !all_digits(b) {
        lemma_lex_flip(a, b);
    }
}

proof fn lemma_comp_refl(a: Seq<char>)
    ensures
        comp_cmp(a, a) == ComparisonResult::Equal,
{
    if all_digits(a) {
        lemma_lex_refl(a.skip(zeros_end(a, 0)));
    } else {
        lemma_lex_refl(a);
    }
}

proof fn lemma_head_flip(xs: Seq<Seq<char>>, ys: Seq<Seq<char>>)
    ensures
        head_cmp(ys, xs) == flip(head_cmp(xs, ys)),
{
    if xs.len() > 0 && ys.len() > 0 {
        lemma_comp_flip(xs[0], ys[0]);
    }
}

proof fn lemma_list_flip(xs: Seq<Seq<char>>, ys: Seq<Seq<char>>)
    ensures
        list_cmp(ys, xs) == flip(list_cmp(xs, ys)),
    decreases xs.len() + ys.len(),
{
    lemma_head_flip(xs, ys);
    if !(xs.len() == 0 && ys.len() == 0) && head_cmp(xs, ys) == ComparisonResult::Equal {
        lemma_list_flip(xs.drop_first(), ys.drop_first());
    }
}

proof fn lemma_list_refl(xs: Seq<Seq<char>>)
    ensures
        list_cmp(xs, xs) == ComparisonResult::Equal,
    decreases xs.len(),
{
    if xs.len() > 0 {
        lemma_comp_refl(xs[0]);
        lemma_list_refl(xs.drop_first());
    }
}

/// Swapping the operands of the comparison flips its outcome: whatever
/// `a` against `b` yields, `b` against `a` yields the opposite.
pub proof fn lemma_version_compare_inverse(a: Seq<char>, b: Seq<char>)
    ensures
        compare_spec(b, a) == flip(compare_spec(a, b)),
{
    if parses_as_version(a) && parses_as_version(b) {
        lemma_list_flip(components(a), components(b));
    } else {
        lemma_lex_flip(a, b);
    }
}

/// Comparing any version string against itself yields `Equal`.
pub proof fn lemma_version_compare_reflexive(a: Seq<char>)
    ensures
        compare_spec(a, a) == ComparisonResult::Equal,
{
    if parses_as_version(a) {
        lemma_list_refl(components(a));
    } else {
        lemma_lex_refl(a);
    }
}

proof fn lemma_lex_trans(a: Seq<char>, b: Seq<char>, c: Seq<char>)
    requires
        lex_cmp(a, b) != ComparisonResult::Greater,
        lex_cmp(b, c) != ComparisonResult::Greater,
    ensures
        lex_cmp(a, c) != ComparisonResult::Greater,
        (lex_cmp(a, b) == ComparisonResult::Less || lex_cmp(b, c) == ComparisonResult::Less)
            ==> lex_cmp(a, c) == ComparisonResult::Less,
    decreases a.len() + b.len() + c.len(),
{
    if a.len() > 0 && b.len() > 0 && c.len() > 0 && (a[0] as u32) == (b[0] as u32) && (b[0]
        as u32) == (c[0] as u32) {
        lemma_lex_trans(a.drop_first(), b.drop_first(), c.drop_first());
    }
}

proof fn lemma_num_trans(a: Seq<char>, b: Seq<char>, c: Seq<char>)
    requires
        num_cmp(a, b) != ComparisonResult::Greater,
        num_cmp(b, c) != ComparisonResult::Greater,
    ensures
        num_cmp(a, c) != ComparisonResult::Greater,
        (num_cmp(a, b) == ComparisonResult::Less || num_cmp(b, c) == ComparisonResult::Less)
            ==> num_cmp(a, c) == ComparisonResult::Less,
{
    let sa = a.skip(zeros_end(a, 0));
    let sb = b.skip(zeros_end(b, 0));
    let sc = c.skip(zeros_end(c, 0));
    if sa.len() == sb.len() && sb.len() == sc.len() {
        lemma_lex_trans(sa, sb, sc);
    }
}

proof fn lemma_comp_trans(a: Seq<char>, b: Seq<char>, c: Seq<char>)
    requires
        comp_cmp(a, b) != ComparisonResult::Greater,
        comp_cmp(b, c) != ComparisonResult::Greater,
    ensures
        comp_cmp(a, c) != ComparisonResult::Greater,
        (comp_cmp(a, b) == ComparisonResult::Less || comp_cmp(b, c) == ComparisonResult::Less)
            ==> comp_cmp(a, c) == ComparisonResult::Less,
{
    if all_digits(a) && all_digits(b) && all_digits(c) {
        lemma_num_trans(a, b, c);
    } else if !all_digits(a) && !all_digits(b) && !all_digits(c) {
        lemma_lex_trans(a, b, c);
    }
}

proof fn lemma_head_trans(xs: Seq<Seq<char>>, ys: Seq<Seq<char>>, zs: Seq<Seq<char>>)
    requires
        head_cmp(xs, ys) != ComparisonResult::Greater,
        head_cmp(ys, zs) != ComparisonResult::Greater,
    ensures
        head_cmp(xs, zs) != ComparisonResult::Greater,
        (head_cmp(xs, ys) == ComparisonResult::Less || head_cmp(ys, zs) == ComparisonResult::Less)
            ==> head_cmp(xs, zs) == ComparisonResult::Less,
{
    if xs.len() > 0 && ys.len() > 0 && zs.len() > 0 {
        lemma_comp_trans(xs[0], ys[0], zs[0]);
    }
}

proof fn lemma_list_trans(xs: Seq<Seq<char>>, ys: Seq<Seq<char>>, zs: Seq<Seq<char>>)
    requires
        list_cmp(xs, ys) != ComparisonResult::Greater,
        list_cmp(ys, zs) != ComparisonResult::Greater,
    ensures
        list_cmp(xs, zs) != ComparisonResult::Greater,
        (list_cmp(xs, ys) == ComparisonResult::Less || list_cmp(ys, zs) == ComparisonResult::Less)
            ==> list_cmp(xs, zs) == ComparisonResult::Less,
    decreases xs.len() + ys.len() + zs.len(),
{
    lemma_head_trans(xs, ys, zs);
    if xs.len() == 0 && ys.len() == 0 && zs.len() == 0 {
    } else if head_cmp(xs, ys) == ComparisonResult::Equal && head_cmp(ys, zs)
        == ComparisonResult::Equal {
        if xs.len() > 0 && ys.len() > 0 && zs.len() > 0 {
            lemma_list_trans(xs.drop_first(), ys.drop_first(), zs.drop_first());
        }
    }
}

/// Among strings that all read as versions the order is transitive: what
/// is no greater than `b`, which is no greater than `c`, is no greater
/// than `c` either.  With a string that fails to parse in the middle this
/// can break, since such a string is compared by characters instead.
pub proof fn lemma_version_compare_transitive(a: Seq<char>, b: Seq<char>, c: Seq<char>)
    requires
        parses_as_version(a),
        parses_as_version(b),
        parses_as_version(c),
        compare_spec(a, b) != ComparisonResult::Greater,
        compare_spec(b, c) != ComparisonResult::Greater,
    ensures
        compare_spec(a, c) != ComparisonResult::Greater,
{
    lemma_list_trans(components(a), components(b), components(c));
}

/// The scan result is a true maximum when every candidate reads as a
/// version: it is one of the candidates and no candidate compares
/// strictly greater than it.
pub proof fn lemma_best_of_max(vs: Seq<Seq<char>>)
    requires
        vs.len() > 0,
        forall|i: int| 0 <= i < vs.len() ==> parses_as_version(#[trigger] vs[i]),
    ensures
        exists|j: int| 0 <= j < vs.len() && best_of(vs) == vs[j],
        forall|i: int|
            0 <= i < vs.len() ==> compare_spec(#[trigger] vs[i], best_of(vs))
                != ComparisonResult::Greater,
    decreases vs.len(),
{
    if vs.len() == 1 {
        lemma_version_compare_reflexive(vs[0]);
        assert(best_of(vs) == vs[0]);
    } else {
        let prefix = vs.drop_last();
        assert(forall|i: int| 0 <= i < prefix.len() ==> prefix[i] == vs[i]);
        lemma_best_of_max(prefix);
        let b = best_of(prefix);
        let l = vs.last();
        let j = choose|j: int| 0 <= j < prefix.len() && b == prefix[j];
        assert(parses_as_version(b));
        if compare_spec(l, b) == ComparisonResult::Greater {
            assert(best_of(vs) == l);
            lemma_version_compare_inverse(l, b);
            assert(compare_spec(b, l) == ComparisonResult::Less);
            assert forall|i: int|
                0 <= i < vs.len() implies compare_spec(#[trigger] vs[i], l)
                != ComparisonResult::Greater by {
                if i < vs.len() - 1 {
                    lemma_version_compare_transitive(vs[i], b, l);
                } else {
                    lemma_version_compare_reflexive(l);
                }
            }
            assert(best_of(vs) == vs[vs.len() - 1]);
        } else {
            assert(best_of(vs) == b);
            assert(0 <= j < vs.len() && best_of(vs) == vs[j]);
        }
    }
}

/// The characters of `s`, as a vector.
pub fn chars_of(s: &str) -> (r: Vec<char>)
    ensures
        r@ == s@,
{
    let n = s.unicode_len();
    let mut r: Vec<char> = Vec::new();
    let mut i: usize = 0;
    while i < n
        invariant
            n == s@.len(),
            i <= n,
            r@ == s@.take(i as int),
        decreases n - i,
    {
        r.push(s.get_char(i));
        proof {
            assert(r@ =~= s@.take(i as int + 1));
        }
        i += 1;
    }
    proof {
        assert(s@.take(n as int) =~= s@);
    }
    r
}

fn is_separator_exec(c: char) -> (b: bool)
    ensures
        b == is_separator(c),
{
    c == '.' || c == '-' || c == '_' || c == '~' || c == '+'
}

fn all_digits_exec(c: &Vec<char>) -> (b: bool)
    ensures
        b == all_digits(c@),
{
    if c.len() == 0 {
        return false;
    }
    let mut i: usize = 0;
    while i < c.len()
        invariant
            i <= c@.len(),
            forall|j: int| 0 <= j < i ==> is_ascii_digit(#[trigger] c@[j]),
        decreases c@.len() - i,
    {
        let ch = c[i] as u32;
        if ch < ('0' as u32) || ('9' as u32) < ch {
            assert(!is_ascii_digit(c@[i as int]));
            return false;
        }
        i += 1;
    }
    true
}

fn lex_cmp_exec(a: &Vec<char>, b: &Vec<char>) -> (r: ComparisonResult)
    ensures
        r == lex_cmp(a@, b@),
{
    proof {
        assert(a@.skip(0) =~= a@);
        assert(b@.skip(0) =~= b@);
    }
    let mut i: usize = 0;
    loop
        invariant
            i <= a@.len(),
            i <= b@.len(),
            lex_cmp(a@, b@) == lex_cmp(a@.skip(i as int), b@.skip(i as int)),
        decreases a@.len() - i,
    {
        if i == a.len() && i == b.len() {
            return ComparisonResult::Equal;
        }
        if i == a.len() {
            return ComparisonResult::Less;
        }
        if i == b.len() {
            return ComparisonResult::Greater;
        }
        let ca = a[i] as u32;
        let cb = b[i] as u32;
        if ca < cb {
            return ComparisonResult::Less;
        }
        if cb < ca {
            return ComparisonResult::Greater;
        }
        proof {
            assert(a@.skip(i as int)[0] == a@[i as int]);
            assert(b@.skip(i as int)[0] == b@[i as int]);
            assert(a@.skip(i as int).drop_first() =~= a@.skip(i as int + 1));
            assert(b@.skip(i as int).drop_first() =~= b@.skip(i as int + 1));
        }
        i += 1;
    }
}

fn zeros_end_exec(s: &Vec<char>) -> (z: usize)
    ensures
        z == zeros_end(s@, 0),
        z <= s@.len(),
{
    let mut j: usize = 0;
    while j < s.len() && s[j] == '0'
        invariant
            j <= s@.len(),
            zeros_end(s@, 0) == zeros_end(s@, j as int),
        decreases s@.len() - j,
    {
        j += 1;
    }
    j
}

fn num_cmp_exec(a: &Vec<char>, b: &Vec<char>) -> (r: ComparisonResult)
    ensures
        r == num_cmp(a@, b@),
{
    let za = zeros_end_exec(a);
    let zb = zeros_end_exec(b);
    let la = a.len() - za;
    let lb = b.len() - zb;
    if la < lb {
        return ComparisonResult::Less;
    }
    if lb < la {
        return ComparisonResult::Greater;
    }
    let na = a.len();
    let nb = b.len();
    let mut i: usize = 0;
    loop
        invariant
            na == a@.len(),
            nb == b@.len(),
            za + i <= na,
            zb + i <= nb,
            za == zeros_end(a@, 0),
            zb == zeros_end(b@, 0),
            a@.len() - za == b@.len() - zb,
            num_cmp(a@, b@) == lex_cmp(a@.skip(za + i), b@.skip(zb + i)),
        decreases a@.len() - za - i,
    {
        if za + i == na {
            return ComparisonResult::Equal;
        }
        let ca = a[za + i] as u32;
        let cb = b[zb + i] as u32;
        if ca < cb {
            return ComparisonResult::Less;
        }
        if cb < ca {
            return ComparisonResult::Greater;
        }
        proof {
            assert(a@.skip(za + i)[0] == a@[za + i]);
            assert(b@.skip(zb + i)[0] == b@[zb + i]);
            assert(a@.skip(za + i).drop_first() =~= a@.skip(za + i + 1));
            assert(b@.skip(zb + i).drop_first() =~= b@.skip(zb + i + 1));
        }
        i += 1;
    }
}

fn comp_cmp_exec(a: &Vec<char>, b: &Vec<char>) -> (r: ComparisonResult)
    ensures
        r == comp_cmp(a@, b@),
{
    let da = all_digits_exec(a);
    let db = all_digits_exec(b);
    if da && db {
        num_cmp_exec(a, b)
    } else if da {
        ComparisonResult::Greater
    } else if db {
        ComparisonResult::Less
    } else {
        lex_cmp_exec(a, b)
    }
}

/// Split a character vector into its pieces.
fn components_exec(v: &Vec<char>) -> (r: Vec<Vec<char>>)
    ensures
        views_of(r@) == components(v@),
        r@.len() > 0,
{
    let mut r: Vec<Vec<char>> = Vec::new();
    let mut i: usize = 0;
    loop
        invariant
            i <= v@.len(),
            components(v@) =~= views_of(r@) + components_from(v@, i as int),
        decreases v@.len() - i,
    {
        proof {
            lemma_component_end_bounds(v@, i as int);
        }
        let mut j: usize = i;
        while j < v.len() && !is_separator_exec(v[j])
            invariant
                i <= j <= v@.len(),
                component_end(v@, i as int) == component_end(v@, j as int),
            decreases v@.len() - j,
        {
            j += 1;
        }
        let mut comp: Vec<char> = Vec::new();
        let mut k: usize = i;
        while k < j
            invariant
                i <= k <= j <= v@.len(),
                comp@ == v@.subrange(i as int, k as int),
            decreases j - k,
        {
            comp.push(v[k]);
            proof {
                assert(comp@ =~= v@.subrange(i as int, k as int + 1));
            }
            k += 1;
        }
        let ghost old_r = r@;
        r.push(comp);
        proof {
            assert(views_of(r@) =~= views_of(old_r).push(v@.subrange(i as int, j as int)));
        }
        if j < v.len() {
            i = j + 1;
        } else {
            proof {
                assert(components(v@) =~= views_of(r@));
            }
            return r;
        }
    }
}

/// Total comparison of two version strings; see the module description for
/// the exact rules.
pub fn version_compare(a: &str, b: &str) -> (r: ComparisonResult)
    ensures
        r == compare_spec(a@, b@),
{
    let av = chars_of(a);
    let bv = chars_of(b);
    let ac = components_exec(&av);
    let bc = components_exec(&bv);
    proof {
        assert(views_of(ac@)[0] == ac@[0]@);
        assert(views_of(bc@)[0] == bc@[0]@);
    }
    let pa = all_digits_exec(&ac[0]);
    let pb = all_digits_exec(&bc[0]);
    if pa && pb {
        list_cmp_exec(&ac, &bc)
    } else {
        lex_cmp_exec(&av, &bv)
    }
}

fn list_cmp_exec(xs: &Vec<Vec<char>>, ys: &Vec<Vec<char>>) -> (r: ComparisonResult)
    ensures
        r == list_cmp(views_of(xs@), views_of(ys@)),
{
    proof {
        assert(views_of(xs@).skip(0) =~= views_of(xs@));
        assert(views_of(ys@).skip(0) =~= views_of(ys@));
    }
    let mut k: usize = 0;
    loop
        invariant
            k <= xs@.len(),
            k <= ys@.len(),
            list_cmp(views_of(xs@), views_of(ys@)) == list_cmp(
                views_of(xs@).skip(k as int),
                views_of(ys@).skip(k as int),
            ),
        decreases xs@.len() + ys@.len() - 2 * k,
    {
        let ghost sx = views_of(xs@).skip(k as int);
        let ghost sy = views_of(ys@).skip(k as int);
        if k == xs.len() && k == ys.len() {
            return ComparisonResult::Equal;
        }
        if k == xs.len() {
            proof {
                assert(sy[0] == ys@[k as int]@);
            }
            if all_digits_exec(&ys[k]) {
                return ComparisonResult::Less;
            } else {
                return ComparisonResult::Greater;
            }
        }
        if k == ys.len() {
            proof {
                assert(sx[0] == xs@[k as int]@);
            }
            if all_digits_exec(&xs[k]) {
                return ComparisonResult::Greater;
            } else {
                return ComparisonResult::Less;
            }
        }
        proof {
            assert(sx[0] == xs@[k as int]@);
            assert(sy[0] == ys@[k as int]@);
        }
        let c = comp_cmp_exec(&xs[k], &ys[k]);
        if c != ComparisonResult::Equal {
            return c;
        }
        proof {
            assert(sx.drop_first() =~= views_of(xs@).skip(k as int + 1));
            assert(sy.drop_first() =~= views_of(ys@).skip(k as int + 1));
        }
        k += 1;
    }
}

/// Pick the retained candidate of a left-to-right scan: the one that
/// [`best_of`] names.  Nothing is picked from an empty list.
pub fn select_latest(versions: &Vec<String>) -> (r: Option<String>)
    ensures
        (r is None) <==> versions@.len() == 0,
        versions@.len() > 0 ==> (r matches Some(v) && v@ == best_of(str_views(versions@))),
        versions@.len() == 1 ==> (r matches Some(v) && v@ == versions@[0]@),
{
    if versions.len() == 0 {
        return None;
    }
    let mut best: String = versions[0].clone();
    proof {
        assert(str_views(versions@.take(1))[0] == versions@[0]@);
        assert(str_views(versions@.take(1)).len() == 1);
    }
    let mut k: usize = 1;
    while k < versions.len()
        invariant
            1 <= k <= versions@.len(),
            best@ == best_of(str_views(versions@.take(k as int))),
        decreases versions@.len() - k,
    {
        let ghost prefix = str_views(versions@.take(k as int + 1));
        proof {
            assert(prefix.drop_last() =~= str_views(versions@.take(k as int)));
            assert(prefix.last() == versions@[k as int]@);
            assert(prefix.len() == k + 1);
        }
        let c = version_compare(versions[k].as_str(), best.as_str());
        if c == ComparisonResult::Greater {
            best = versions[k].clone();
        }
        k += 1;
    }
    proof {
        assert(versions@.take(versions@.len() as int) =~= versions@);
    }
    Some(best)
}

} // verus!
