//! The one-line configuration mini-language: a backend type, a `::`
//! separator, then `key=value;` pairs.  `parse_check_update` turns such a
//! line into a [`Config`] for the dispatcher.

use vstd::prelude::*;
use vstd::string::StrSliceExecFns;
use vstd::string::StringExecFns;

use crate::config::Config;
use crate::errors::CheckError;
use crate::errors::ConfigError;
use crate::vercmp::chars_of;

verus! {

/// A key character: an ASCII letter or digit, or `_`.
pub open spec fn is_word_char(c: char) -> bool {
    (('0' as u32) <= (c as u32) && (c as u32) <= ('9' as u32)) || (('A' as u32) <= (c as u32) && (c
        as u32) <= ('Z' as u32)) || (('a' as u32) <= (c as u32) && (c as u32) <= ('z' as u32)) || c
        == '_'
}

/// End of the run of key characters that starts at `i`.
pub open spec fn word_end(s: Seq<char>, i: int) -> int
    decreases s.len() - i,
    when 0 <= i <= s.len()
{
    if i < s.len() && is_word_char(s[i]) {
        word_end(s, i + 1)
    } else {
        i
    }
}

/// Position of the first `::` at or after `i`, or the end if there is
/// none.
pub open spec fn sep_pos(s: Seq<char>, i: int) -> int
    decreases s.len() - i,
    when 0 <= i <= s.len()
{
    if i + 2 <= s.len() && s[i] == ':' && s[i + 1] == ':' {
        i
    } else if i < s.len() {
        sep_pos(s, i + 1)
    } else {
        i
    }
}

/// Position of the first `;` at or after `i`, or the end.
pub open spec fn semi_pos(s: Seq<char>, i: int) -> int
    decreases s.len() - i,
    when 0 <= i <= s.len()
{
    if i < s.len() && s[i] != ';' {
        semi_pos(s, i + 1)
    } else {
        i
    }
}

proof fn lemma_word_end_bounds(s: Seq<char>, i: int)
    requires
        0 <= i <= s.len(),
    ensures
        i <= word_end(s, i) <= s.len(),
    decreases s.len() - i,
{
    if i < s.len() && is_word_char(s[i]) {
        lemma_word_end_bounds(s, i + 1);
    }
}

proof fn lemma_semi_pos_bounds(s: Seq<char>, i: int)
    requires
        0 <= i <= s.len(),
    ensures
        i <= semi_pos(s, i) <= s.len(),
    decreases s.len() - i,
{
    if i < s.len() && s[i] != ';' {
        lemma_semi_pos_bounds(s, i + 1);
    }
}

/// One `key=value` pair read at `i`: the key, the value, and the
/// position of the `;` after the value.  Nothing is read when the key is
/// empty, no `=` follows it, or no `;` closes the value.
pub open spec fn kv_pair_spec(s: Seq<char>, i: int) -> Option<(Seq<char>, Seq<char>, int)> {
    let t = word_end(s, i);
    if t == i || t >= s.len() || s[t] != '=' {
        None
    } else {
        let sp = semi_pos(s, t + 1);
        if sp >= s.len() {
            None
        } else {
            Some((s.subrange(i, t), s.subrange(t + 1, sp), sp))
        }
    }
}

proof fn lemma_kv_pair_bounds(s: Seq<char>, i: int)
    requires
        0 <= i <= s.len(),
    ensures
        kv_pair_spec(s, i) matches Some(v) ==> i < v.2 < s.len(),
{
    lemma_word_end_bounds(s, i);
    if word_end(s, i) < s.len() {
        lemma_semi_pos_bounds(s, word_end(s, i) + 1);
    }
}

/// All `key=value;` pairs from `i` on, and the position where reading
/// stopped.
pub open spec fn kv_pairs_from(s: Seq<char>, i: int) -> (Seq<(Seq<char>, Seq<char>)>, int)
    decreases s.len() - i,
    when 0 <= i <= s.len()
    via kv_pairs_from_decreases
{
    match kv_pair_spec(s, i) {
        None => (Seq::empty(), i),
        Some((k, v, sp)) => {
            let rest = kv_pairs_from(s, sp + 1);
            (seq![(k, v)] + rest.0, rest.1)
        },
    }
}

#[via_fn]
proof fn kv_pairs_from_decreases(s: Seq<char>, i: int) {
    lemma_kv_pair_bounds(s, i);
}

/// A whole configuration line: the type token before the first `::`, and
/// one or more pairs after it.
pub open spec fn config_line_spec(s: Seq<char>) -> Option<
    (Seq<char>, Seq<(Seq<char>, Seq<char>)>, int),
> {
    let p = sep_pos(s, 0);
    if p + 2 > s.len() {
        None
    } else {
        let pairs = kv_pairs_from(s, p + 2);
        if pairs.0.len() == 0 {
            None
        } else {
            Some((s.take(p), pairs.0, pairs.1))
        }
    }
}

/// Last value bound to `key` in `pairs`, if any.
pub open spec fn pairs_last(pairs: Seq<(Seq<char>, Seq<char>)>, key: Seq<char>) -> Option<Seq<char>>
    decreases pairs.len(),
{
    if pairs.len() == 0 {
        None
    } else if pairs.last().0 == key {
        Some(pairs.last().1)
    } else {
        pairs_last(pairs.drop_last(), key)
    }
}

/// What the finished configuration binds `key` to: the last pair wins,
/// and the type token stands under `type` unless a pair overrides it.
pub open spec fn merged_lookup(
    ty: Seq<char>,
    pairs: Seq<(Seq<char>, Seq<char>)>,
    key: Seq<char>,
) -> Option<Seq<char>> {
    match pairs_last(pairs, key) {
        Some(v) => Some(v),
        None => if key == "type"@ {
            Some(ty)
        } else {
            None
        },
    }
}

fn scan_word(v: &Vec<char>, pos: usize) -> (e: usize)
    requires
        pos <= v@.len(),
    ensures
        e == word_end(v@, pos as int),
        pos <= e <= v@.len(),
{
    let n = v.len();
    let mut j: usize = pos;
    while j < n && ((v[j] as u32 >= 0x30 && v[j] as u32 <= 0x39) || (v[j] as u32 >= 0x41 && v[j]
        as u32 <= 0x5a) || (v[j] as u32 >= 0x61 && v[j] as u32 <= 0x7a) || v[j] == '_')
        invariant
            pos <= j <= n,
            n == v@.len(),
            word_end(v@, pos as int) == word_end(v@, j as int),
        decreases n - j,
    {
        j += 1;
    }
    j
}

fn scan_sep(v: &Vec<char>, pos: usize) -> (e: usize)
    requires
        pos <= v@.len(),
    ensures
        e == sep_pos(v@, pos as int),
        pos <= e <= v@.len(),
{
    let n = v.len();
    let mut j: usize = pos;
    while j < n && !(j + 1 < n && v[j] == ':' && v[j + 1] == ':')
        invariant
            pos <= j <= n,
            n == v@.len(),
            sep_pos(v@, pos as int) == sep_pos(v@, j as int),
        decreases n - j,
    {
        j += 1;
    }
    j
}

fn scan_semi(v: &Vec<char>, pos: usize) -> (e: usize)
    requires
        pos <= v@.len(),
    ensures
        e == semi_pos(v@, pos as int),
        pos <= e <= v@.len(),
{
    let n = v.len();
    let mut j: usize = pos;
    while j < n && v[j] != ';'
        invariant
            pos <= j <= n,
            n == v@.len(),
            semi_pos(v@, pos as int) == semi_pos(v@, j as int),
        decreases n - j,
    {
        j += 1;
    }
    j
}

/// Read the backend type token: everything before the first `::`.
/// Yields the token and how many characters it spans; nothing without a
/// `::` in the input.
pub fn take_type(input: &str) -> (r: Option<(String, usize)>)
    ensures
        r is Some <==> sep_pos(input@, 0) + 2 <= input@.len(),
        r matches Some(v) ==> v.1 == sep_pos(input@, 0) && v.0@ == input@.take(v.1 as int),
{
    let chars = chars_of(input);
    let p = scan_sep(&chars, 0);
    if chars.len() - p < 2 {
        return None;
    }
    let tok = String::from_str(input.substring_char(0, p));
    proof {
        assert(tok@ =~= input@.take(p as int));
    }
    Some((tok, p))
}

/// Read a key: a non-empty run of letters, digits and `_`.  Yields the
/// key and how many characters it spans.
pub fn kv_key(input: &str) -> (r: Option<(String, usize)>)
    ensures
        r is Some <==> word_end(input@, 0) != 0,
        r matches Some(v) ==> v.1 == word_end(input@, 0) && v.0@ == input@.take(v.1 as int),
{
    let chars = chars_of(input);
    let t = scan_word(&chars, 0);
    if t == 0 {
        return None;
    }
    let key = String::from_str(input.substring_char(0, t));
    proof {
        assert(key@ =~= input@.take(t as int));
    }
    Some((key, t))
}

fn kv_pair_at(input: &str, chars: &Vec<char>, pos: usize) -> (r: Option<((String, String), usize)>)
    requires
        chars@ == input@,
        pos <= chars@.len(),
    ensures
        r is Some <==> kv_pair_spec(input@, pos as int) is Some,
        r matches Some(v) ==> kv_pair_spec(input@, pos as int) == Some(
            (v.0.0@, v.0.1@, v.1 as int),
        ) && pos < v.1 < input@.len(),
{
    let t = scan_word(chars, pos);
    if t == pos {
        return None;
    }
    if t == chars.len() {
        return None;
    }
    if chars[t] != '=' {
        return None;
    }
    let sp = scan_semi(chars, t + 1);
    if sp == chars.len() {
        return None;
    }
    let key = String::from_str(input.substring_char(pos, t));
    let value = String::from_str(input.substring_char(t + 1, sp));
    proof {
        assert(key@ =~= input@.subrange(pos as int, t as int));
        assert(value@ =~= input@.subrange(t as int + 1, sp as int));
    }
    Some(((key, value), sp))
}

/// Read one `key=value` pair, leaving the closing `;` unconsumed; see
/// [`kv_pair_spec`].  Yields the pair and the position of that `;`.
pub fn kv_pair(input: &str) -> (r: Option<((String, String), usize)>)
    ensures
        r is Some <==> kv_pair_spec(input@, 0) is Some,
        r matches Some(v) ==> kv_pair_spec(input@, 0) == Some((v.0.0@, v.0.1@, v.1 as int)),
{
    let chars = chars_of(input);
    kv_pair_at(input, &chars, 0)
}

/// The views of a sequence of string pairs.
pub open spec fn kv_views(ps: Seq<(String, String)>) -> Seq<(Seq<char>, Seq<char>)> {
    ps.map_values(|p: (String, String)| (p.0@, p.1@))
}

fn kv_pairs_at(input: &str, chars: &Vec<char>, pos: usize) -> (r: (Vec<(String, String)>, usize))
    requires
        chars@ == input@,
        pos <= chars@.len(),
    ensures
        kv_views(r.0@) == kv_pairs_from(input@, pos as int).0,
        r.1 as int == kv_pairs_from(input@, pos as int).1,
{
    let mut out: Vec<(String, String)> = Vec::new();
    let n = chars.len();
    let mut cur: usize = pos;
    loop
        invariant
            n == chars@.len(),
            cur <= n,
            chars@ == input@,
            kv_pairs_from(input@, pos as int).0 =~= kv_views(out@) + kv_pairs_from(
                input@,
                cur as int,
            ).0,
            kv_pairs_from(input@, pos as int).1 == kv_pairs_from(input@, cur as int).1,
        decreases chars@.len() - cur,
    {
        match kv_pair_at(input, chars, cur) {
            Some(((k, v), sp)) => {
                let ghost old_out = out@;
                out.push((k, v));
                proof {
                    assert(kv_views(out@) =~= kv_views(old_out).push((k@, v@)));
                }
                cur = sp + 1;
            },
            None => {
                proof {
                    assert(kv_pairs_from(input@, cur as int).0.len() == 0);
                    assert(kv_views(out@) =~= kv_pairs_from(input@, pos as int).0);
                }
                return (out, cur);
            },
        }
    }
}

/// Read one or more `key=value;` pairs.  Yields them and the position
/// where reading stopped; nothing when not even one pair can be read.
pub fn kv_pairs(input: &str) -> (r: Option<(Vec<(String, String)>, usize)>)
    ensures
        r is Some <==> kv_pairs_from(input@, 0).0.len() != 0,
        r matches Some(v) ==> kv_views(v.0@) == kv_pairs_from(input@, 0).0 && v.1 as int
            == kv_pairs_from(input@, 0).1,
{
    let chars = chars_of(input);
    let (pairs, end) = kv_pairs_at(input, &chars, 0);
    if pairs.len() == 0 {
        return None;
    }
    Some((pairs, end))
}

/// Read a whole configuration line; see [`config_line_spec`].
pub fn config_line(input: &str) -> (r: Option<((String, Vec<(String, String)>), usize)>)
    ensures
        r is Some <==> config_line_spec(input@) is Some,
        r matches Some(v) ==> config_line_spec(input@) == Some(
            (v.0.0@, kv_views(v.0.1@), v.1 as int),
        ),
{
    let chars = chars_of(input);
    let p = scan_sep(&chars, 0);
    if chars.len() - p < 2 {
        return None;
    }
    let ty = String::from_str(input.substring_char(0, p));
    proof {
        assert(ty@ =~= input@.take(p as int));
    }
    let (pairs, end) = kv_pairs_at(input, &chars, p + 2);
    if pairs.len() == 0 {
        return None;
    }
    Some(((ty, pairs), end))
}

/// Parse a configuration line into a [`Config`]: the type token stands
/// under `type`, then every pair is bound in order, a later pair
/// overriding an earlier one.  A line that does not parse is refused.
pub fn parse_check_update(content: &str) -> (r: Result<Config, CheckError>)
    ensures
        r is Ok <==> config_line_spec(content@) is Some,
        config_line_spec(content@) matches Some(v) ==> (r matches Ok(c) ==> forall|k: Seq<char>|
            c.spec_get(k) == merged_lookup(v.0, v.1, k)),
        r matches Err(e) ==> (e matches CheckError::Config(ConfigError::InvalidField(f)) && f@
            == "CHKUPDATE"@),
{
    let (ty, pairs) = match config_line(content) {
        Some((v, _end)) => v,
        None => {
            return Err(CheckError::Config(ConfigError::InvalidField(String::from_str(
                "CHKUPDATE",
            ))));
        },
    };
    let ghost ty_view = ty@;
    let ghost pair_list = kv_views(pairs@);
    let mut config = Config::new();
    config.insert(String::from_str("type"), ty);
    proof {
        assert forall|k: Seq<char>|
            config.spec_get(k) == merged_lookup(ty_view, pair_list.take(0), k) by {
            assert(pair_list.take(0).len() == 0);
        }
    }
    let n = pairs.len();
    let mut i: usize = 0;
    while i < n
        invariant
            i <= n,
            n == pairs@.len(),
            pair_list == kv_views(pairs@),
            forall|k: Seq<char>|
                config.spec_get(k) == merged_lookup(ty_view, pair_list.take(i as int), k),
        decreases n - i,
    {
        let (k, v) = (pairs[i].0.clone(), pairs[i].1.clone());
        let ghost kk = k@;
        let ghost vv = v@;
        config.insert(k, v);
        proof {
            assert(pair_list[i as int] == (kk, vv));
            assert forall|key: Seq<char>|
                config.spec_get(key) == merged_lookup(ty_view, pair_list.take(i as int + 1), key) by {
                assert(pair_list.take(i as int + 1).drop_last() =~= pair_list.take(i as int));
                assert(pair_list.take(i as int + 1).last() == (kk, vv));
                if key == kk {
                    assert(config.spec_get(key) == Some(vv));
                } else {
                    assert(config.spec_get(key) == merged_lookup(
                        ty_view,
                        pair_list.take(i as int),
                        key,
                    ));
                }
            }
        }
        i += 1;
    }
    proof {
        assert(pair_list.take(n as int) =~= pair_list);
    }
    Ok(config)
}

} // verus!
