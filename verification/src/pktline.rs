//! Decoder for Git's smart-HTTP reference advertisement framing.
//!
//! The advertisement is a stream of lines.  Each line opens with a token
//! of ASCII hexadecimal digits — the pkt-line length prefix run together
//! with the object id — or of `#`, the marker of the leading service
//! announcement; then come one or more spaces or tabs, then the payload,
//! which runs up to (but not including) the line ending; every line must
//! be closed by at least one whitespace byte.  The decoder takes as many
//! complete lines as it can, at least one, and reports how far it came:
//! trailing bytes, such as the `0000` flush packet, stay unconsumed for
//! the caller to inspect.  A stream without a single complete line is a
//! [`ProtocolError::MalformedPktLine`].

use vstd::prelude::*;
use vstd::slice::slice_to_vec;

use crate::errors::ProtocolError;

verus! {

/// An ASCII hexadecimal digit.
pub open spec fn is_hex_digit_byte(b: u8) -> bool {
    (0x30 <= b && b <= 0x39) || (0x41 <= b && b <= 0x46) || (0x61 <= b && b <= 0x66)
}

/// A byte the opening token may hold: a hexadecimal digit or `#`.
pub open spec fn is_token_byte(b: u8) -> bool {
    is_hex_digit_byte(b) || b == 0x23
}

/// A space or a tab.
pub open spec fn is_space_byte(b: u8) -> bool {
    b == 0x20 || b == 0x09
}

/// Whitespace that may close a line: space, tab, carriage return, newline.
pub open spec fn is_ws_byte(b: u8) -> bool {
    b == 0x20 || b == 0x09 || b == 0x0d || b == 0x0a
}

/// A byte that ends a payload: carriage return or newline.
pub open spec fn is_line_end_byte(b: u8) -> bool {
    b == 0x0d || b == 0x0a
}

/// End of the run of token bytes that starts at `i`.
pub open spec fn token_end(s: Seq<u8>, i: int) -> int
    decreases s.len() - i,
    when 0 <= i <= s.len()
{
    if i < s.len() && is_token_byte(s[i]) {
        token_end(s, i + 1)
    } else {
        i
    }
}

/// End of the run of spaces and tabs that starts at `i`.
pub open spec fn space_end(s: Seq<u8>, i: int) -> int
    decreases s.len() - i,
    when 0 <= i <= s.len()
{
    if i < s.len() && is_space_byte(s[i]) {
        space_end(s, i + 1)
    } else {
        i
    }
}

/// End of the run of closing whitespace that starts at `i`.
pub open spec fn ws_end(s: Seq<u8>, i: int) -> int
    decreases s.len() - i,
    when 0 <= i <= s.len()
{
    if i < s.len() && is_ws_byte(s[i]) {
        ws_end(s, i + 1)
    } else {
        i
    }
}

/// End of the payload that starts at `i`: the first line-ending byte at or
/// after `i`, or the end of the stream.
pub open spec fn payload_end(s: Seq<u8>, i: int) -> int
    decreases s.len() - i,
    when 0 <= i <= s.len()
{
    if i < s.len() && !is_line_end_byte(s[i]) {
        payload_end(s, i + 1)
    } else {
        i
    }
}

proof fn lemma_token_end_bounds(s: Seq<u8>, i: int)
    requires
        0 <= i <= s.len(),
    ensures
        i <= token_end(s, i) <= s.len(),
    decreases s.len() - i,
{
    if i < s.len() && is_token_byte(s[i]) {
        lemma_token_end_bounds(s, i + 1);
    }
}

proof fn lemma_space_end_bounds(s: Seq<u8>, i: int)
    requires
        0 <= i <= s.len(),
    ensures
        i <= space_end(s, i) <= s.len(),
    decreases s.len() - i,
{
    if i < s.len() && is_space_byte(s[i]) {
        lemma_space_end_bounds(s, i + 1);
    }
}

proof fn lemma_ws_end_bounds(s: Seq<u8>, i: int)
    requires
        0 <= i <= s.len(),
    ensures
        i <= ws_end(s, i) <= s.len(),
    decreases s.len() - i,
{
    if i < s.len() && is_ws_byte(s[i]) {
        lemma_ws_end_bounds(s, i + 1);
    }
}

proof fn lemma_payload_end_bounds(s: Seq<u8>, i: int)
    requires
        0 <= i <= s.len(),
    ensures
        i <= payload_end(s, i) <= s.len(),
    decreases s.len() - i,
{
    if i < s.len() && !is_line_end_byte(s[i]) {
        lemma_payload_end_bounds(s, i + 1);
    }
}

/// One token/payload pair read at `i`, without its closing whitespace:
/// the token, the payload, and the position just after the payload.
/// Nothing is read when the token or the separating space run is empty,
/// or when the payload stops at a carriage return that no newline
/// follows.
pub open spec fn kv_spec(s: Seq<u8>, i: int) -> Option<(Seq<u8>, Seq<u8>, int)> {
    let t = token_end(s, i);
    let sp = space_end(s, t);
    let p = payload_end(s, sp);
    if t == i || sp == t {
        None
    } else if p < s.len() && s[p] == 0x0d && !(p + 1 < s.len() && s[p + 1] == 0x0a) {
        None
    } else {
        Some((s.subrange(i, t), s.subrange(sp, p), p))
    }
}

/// One complete line read at `i`: the pair, and the position after the
/// closing whitespace run, which must not be empty.
pub open spec fn line_spec(s: Seq<u8>, i: int) -> Option<(Seq<u8>, Seq<u8>, int)> {
    match kv_spec(s, i) {
        None => None,
        Some((h, pay, p)) => {
            let m = ws_end(s, p);
            if m == p {
                None
            } else {
                Some((h, pay, m))
            }
        },
    }
}

proof fn lemma_line_bounds(s: Seq<u8>, i: int)
    requires
        0 <= i <= s.len(),
    ensures
        line_spec(s, i) matches Some(v) ==> i < v.2 <= s.len(),
    decreases s.len() - i,
{
    lemma_token_end_bounds(s, i);
    lemma_space_end_bounds(s, token_end(s, i));
    lemma_payload_end_bounds(s, space_end(s, token_end(s, i)));
    lemma_ws_end_bounds(s, payload_end(s, space_end(s, token_end(s, i))));
}

/// All complete lines from `i` on, and the position where reading stopped.
pub open spec fn manifest_from(s: Seq<u8>, i: int) -> (Seq<(Seq<u8>, Seq<u8>)>, int)
    decreases s.len() - i,
    when 0 <= i <= s.len()
    via manifest_from_decreases
{
    match line_spec(s, i) {
        None => (Seq::empty(), i),
        Some((h, pay, m)) => {
            let rest = manifest_from(s, m);
            (seq![(h, pay)] + rest.0, rest.1)
        },
    }
}

#[via_fn]
proof fn manifest_from_decreases(s: Seq<u8>, i: int) {
    lemma_line_bounds(s, i);
}

/// The views of a sequence of byte-vector pairs.
pub open spec fn pair_views(ps: Seq<(Vec<u8>, Vec<u8>)>) -> Seq<(Seq<u8>, Seq<u8>)> {
    ps.map_values(|p: (Vec<u8>, Vec<u8>)| (p.0@, p.1@))
}

fn scan_token(s: &[u8], pos: usize) -> (e: usize)
    requires
        pos <= s@.len(),
    ensures
        e == token_end(s@, pos as int),
        pos <= e <= s@.len(),
{
    let n = s.len();
    let mut j: usize = pos;
    while j < n && ((0x30 <= s[j] && s[j] <= 0x39) || (0x41 <= s[j] && s[j] <= 0x46) || (0x61
        <= s[j] && s[j] <= 0x66) || s[j] == 0x23)
        invariant
            n == s@.len(),
            pos <= j <= n,
            token_end(s@, pos as int) == token_end(s@, j as int),
        decreases n - j,
    {
        j += 1;
    }
    j
}

fn scan_space(s: &[u8], pos: usize) -> (e: usize)
    requires
        pos <= s@.len(),
    ensures
        e == space_end(s@, pos as int),
        pos <= e <= s@.len(),
{
    let n = s.len();
    let mut j: usize = pos;
    while j < n && (s[j] == 0x20 || s[j] == 0x09)
        invariant
            n == s@.len(),
            pos <= j <= n,
            space_end(s@, pos as int) == space_end(s@, j as int),
        decreases n - j,
    {
        j += 1;
    }
    j
}

fn scan_ws(s: &[u8], pos: usize) -> (e: usize)
    requires
        pos <= s@.len(),
    ensures
        e == ws_end(s@, pos as int),
        pos <= e <= s@.len(),
{
    let n = s.len();
    let mut j: usize = pos;
    while j < n && (s[j] == 0x20 || s[j] == 0x09 || s[j] == 0x0d || s[j] == 0x0a)
        invariant
            n == s@.len(),
            pos <= j <= n,
            ws_end(s@, pos as int) == ws_end(s@, j as int),
        decreases n - j,
    {
        j += 1;
    }
    j
}

fn scan_payload(s: &[u8], pos: usize) -> (e: usize)
    requires
        pos <= s@.len(),
    ensures
        e == payload_end(s@, pos as int),
        pos <= e <= s@.len(),
{
    let n = s.len();
    let mut j: usize = pos;
    while j < n && s[j] != 0x0d && s[j] != 0x0a
        invariant
            n == s@.len(),
            pos <= j <= n,
            payload_end(s@, pos as int) == payload_end(s@, j as int),
        decreases n - j,
    {
        j += 1;
    }
    j
}

/// Read the opening token at `pos`: the run of hexadecimal digits and `#`
/// bytes, which must not be empty.  Yields the token and the position
/// after it.
pub fn first_tuple(input: &[u8], pos: usize) -> (r: Result<(Vec<u8>, usize), ProtocolError>)
    requires
        pos <= input@.len(),
    ensures
        r is Ok <==> token_end(input@, pos as int) != pos as int,
        r matches Ok(v) ==> v.1 == token_end(input@, pos as int) && v.0@ == input@.subrange(
            pos as int,
            v.1 as int,
        ) && pos < v.1 <= input@.len(),
        r matches Err(e) ==> e == ProtocolError::MalformedPktLine,
{
    let e = scan_token(input, pos);
    if e == pos {
        Err(ProtocolError::MalformedPktLine)
    } else {
        Ok((slice_to_vec(&input[pos..e]), e))
    }
}

/// Read one token/payload pair at `pos`, leaving the line ending
/// unconsumed; see [`kv_spec`].
pub fn kv_pair(input: &[u8], pos: usize) -> (r: Result<((Vec<u8>, Vec<u8>), usize), ProtocolError>)
    requires
        pos <= input@.len(),
    ensures
        r is Ok <==> kv_spec(input@, pos as int) is Some,
        r matches Ok(v) ==> kv_spec(input@, pos as int) == Some((v.0.0@, v.0.1@, v.1 as int))
            && pos <= v.1 <= input@.len(),
        r matches Err(e) ==> e == ProtocolError::MalformedPktLine,
{
    let t = scan_token(input, pos);
    if t == pos {
        return Err(ProtocolError::MalformedPktLine);
    }
    let sp = scan_space(input, t);
    if sp == t {
        return Err(ProtocolError::MalformedPktLine);
    }
    let p = scan_payload(input, sp);
    if p < input.len() && input[p] == 0x0d && !(p + 1 < input.len() && input[p + 1] == 0x0a) {
        return Err(ProtocolError::MalformedPktLine);
    }
    let hex = slice_to_vec(&input[pos..t]);
    let payload = slice_to_vec(&input[sp..p]);
    Ok(((hex, payload), p))
}

/// Read one complete line at `pos`: a pair and its closing whitespace;
/// see [`line_spec`].
pub fn single_line(input: &[u8], pos: usize) -> (r: Result<
    ((Vec<u8>, Vec<u8>), usize),
    ProtocolError,
>)
    requires
        pos <= input@.len(),
    ensures
        r is Ok <==> line_spec(input@, pos as int) is Some,
        r matches Ok(v) ==> line_spec(input@, pos as int) == Some((v.0.0@, v.0.1@, v.1 as int))
            && pos < v.1 <= input@.len(),
        r matches Err(e) ==> e == ProtocolError::MalformedPktLine,
{
    let (pair, p) = match kv_pair(input, pos) {
        Ok(v) => v,
        Err(e) => {
            return Err(e);
        },
    };
    let m = scan_ws(input, p);
    if m == p {
        return Err(ProtocolError::MalformedPktLine);
    }
    Ok((pair, m))
}

/// Decode the reference advertisement: every complete line from the
/// start, which must be at least one.  Yields the token/payload pairs and
/// the position where decoding stopped; whatever follows (for instance
/// the `0000` flush packet) is left for the caller.
pub fn parse_git_manifest(input: &[u8]) -> (r: Result<
    (Vec<(Vec<u8>, Vec<u8>)>, usize),
    ProtocolError,
>)
    ensures
        r is Ok <==> manifest_from(input@, 0).0.len() != 0,
        r matches Ok(v) ==> pair_views(v.0@) == manifest_from(input@, 0).0 && v.1 as int
            == manifest_from(input@, 0).1,
        r matches Err(e) ==> e == ProtocolError::MalformedPktLine,
{
    let mut out: Vec<(Vec<u8>, Vec<u8>)> = Vec::new();
    let mut pos: usize = 0;
    loop
        invariant
            pos <= input@.len(),
            manifest_from(input@, 0).0 =~= pair_views(out@) + manifest_from(input@, pos as int).0,
            manifest_from(input@, 0).1 == manifest_from(input@, pos as int).1,
        decreases input@.len() - pos,
    {
        match single_line(input, pos) {
            Ok((pair, m)) => {
                let ghost old_out = out@;
                out.push(pair);
                proof {
                    assert(pair_views(out@) =~= pair_views(old_out).push((pair.0@, pair.1@)));
                }
                pos = m;
            },
            Err(_) => {
                if out.len() == 0 {
                    return Err(ProtocolError::MalformedPktLine);
                }
                proof {
                    assert(manifest_from(input@, pos as int).0.len() == 0);
                    assert(manifest_from(input@, 0).0 =~= pair_views(out@));
                }
                return Ok((out, pos));
            },
        }
    }
}

} // verus!
