//! Applying a user-supplied pattern to a list of candidate strings.
//!
//! One option serves two purposes: a pattern with at least one capture
//! group *extracts* (the first group's text of every matching string is
//! returned), while a pattern without one *filters* (every matching string
//! is returned whole, unmodified).

use vstd::prelude::*;

use crate::errors::CheckError;
use crate::errors::ConfigError;
use crate::pattern::Pattern;
use crate::pattern::re_valid;
use crate::pattern::re_captures_count;
use crate::pattern::re_is_match;
use crate::pattern::re_capture_first;
use crate::vercmp::str_views;

verus! {

/// The first-capture-group texts of the items the pattern matches, in
/// order; items without a match (or whose group does not take part) drop
/// out.
pub open spec fn captures_extracted(pat: Seq<char>, items: Seq<Seq<char>>) -> Seq<Seq<char>>
    decreases items.len(),
{
    if items.len() == 0 {
        Seq::empty()
    } else {
        let rest = captures_extracted(pat, items.drop_first());
        match re_capture_first(pat, items[0]) {
            Some(t) => seq![t] + rest,
            None => rest,
        }
    }
}

/// The items the pattern matches, themselves, in order.
pub open spec fn matches_kept(pat: Seq<char>, items: Seq<Seq<char>>) -> Seq<Seq<char>>
    decreases items.len(),
{
    if items.len() == 0 {
        Seq::empty()
    } else {
        let rest = matches_kept(pat, items.drop_first());
        if re_is_match(pat, items[0]) {
            seq![items[0]] + rest
        } else {
            rest
        }
    }
}

/// What extraction yields: capture-group texts when the pattern has a
/// capture group beyond the whole match, the matching items unmodified
/// otherwise.
pub open spec fn extract_spec(pat: Seq<char>, items: Seq<Seq<char>>) -> Seq<Seq<char>> {
    if re_captures_count(pat) > 1 {
        captures_extracted(pat, items)
    } else {
        matches_kept(pat, items)
    }
}

/// Apply `pattern` to every string of `collection`; see [`extract_spec`].
/// A pattern that does not compile fails with
/// [`ConfigError::InvalidPattern`].
pub fn extract_versions(pattern: &str, collection: &Vec<String>) -> (r: Result<
    Vec<String>,
    CheckError,
>)
    ensures
        r is Ok <==> re_valid(pattern@),
        r matches Ok(v) ==> str_views(v@) == extract_spec(pattern@, str_views(collection@)),
        r matches Err(e) ==> (e matches CheckError::Config(ConfigError::InvalidPattern(p))
            && p@ == pattern@),
{
    let re = match Pattern::compile(pattern) {
        Ok(re) => re,
        Err(e) => {
            return Err(CheckError::Config(e));
        },
    };
    let ghost items = str_views(collection@);
    proof {
        assert(items.skip(0) =~= items);
    }
    let mut out: Vec<String> = Vec::new();
    let n = collection.len();
    let mut i: usize = 0;
    if re.captures_len() > 1 {
        while i < n
            invariant
                n == collection@.len(),
                i <= n,
                re.pat() == pattern@,
                re_captures_count(pattern@) > 1,
                items == str_views(collection@),
                captures_extracted(pattern@, items) =~= str_views(out@) + captures_extracted(
                    pattern@,
                    items.skip(i as int),
                ),
            decreases n - i,
        {
            proof {
                assert(items.skip(i as int)[0] == collection@[i as int]@);
                assert(items.skip(i as int).drop_first() =~= items.skip(i as int + 1));
            }
            match re.capture_first(collection[i].as_str()) {
                Some(t) => {
                    let ghost old_out = out@;
                    out.push(t);
                    proof {
                        assert(str_views(out@) =~= str_views(old_out).push(
                            re_capture_first(pattern@, items.skip(i as int)[0]).unwrap(),
                        ));
                    }
                },
                None => {},
            }
            i += 1;
        }
        proof {
            assert(items.skip(n as int).len() == 0);
            assert(str_views(out@) =~= captures_extracted(pattern@, items));
        }
        Ok(out)
    } else {
        while i < n
            invariant
                n == collection@.len(),
                i <= n,
                re.pat() == pattern@,
                re_captures_count(pattern@) <= 1,
                items == str_views(collection@),
                matches_kept(pattern@, items) =~= str_views(out@) + matches_kept(
                    pattern@,
                    items.skip(i as int),
                ),
            decreases n - i,
        {
            proof {
                assert(items.skip(i as int)[0] == collection@[i as int]@);
                assert(items.skip(i as int).drop_first() =~= items.skip(i as int + 1));
            }
            if re.is_match(collection[i].as_str()) {
                let ghost old_out = out@;
                out.push(collection[i].clone());
                proof {
                    assert(str_views(out@) =~= str_views(old_out).push(collection@[i as int]@));
                }
            }
            i += 1;
        }
        proof {
            assert(items.skip(n as int).len() == 0);
            assert(str_views(out@) =~= matches_kept(pattern@, items));
        }
        Ok(out)
    }
}

} // verus!
