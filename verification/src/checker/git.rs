//! The raw Git strategy: decode a smart-HTTP reference advertisement and
//! pick a branch head or the highest tag.

use vstd::prelude::*;
use vstd::string::StrSliceExecFns;
use vstd::string::StringExecFns;
use vstd::slice::slice_to_vec;
use vstd::utf8::decode_utf8;
use vstd::utf8::valid_utf8;

use crate::config::Config;
use crate::errors::CheckError;
use crate::errors::ConfigError;
use crate::errors::ProtocolError;
use crate::extract::extract_spec;
use crate::extract::extract_versions;
use crate::net::HttpMethod;
use crate::net::HttpRequest;
use crate::pattern::re_valid;
use crate::pktline::manifest_from;
use crate::pktline::parse_git_manifest;
use crate::strconv::bytes_to_string;
use crate::vercmp::best_of;
use crate::vercmp::str_views;
use crate::vercmp::select_latest;

verus! {

/// The three bytes of the peeled-tag marker `^{}`.
pub open spec fn peel_suffix() -> Seq<u8> {
    seq![0x5eu8, 0x7bu8, 0x7du8]
}

/// The bytes of `refs/tags/`.
pub open spec fn tags_prefix() -> Seq<u8> {
    seq![0x72u8, 0x65u8, 0x66u8, 0x73u8, 0x2fu8, 0x74u8, 0x61u8, 0x67u8, 0x73u8, 0x2fu8]
}

/// The bytes of `refs/heads/`.
pub open spec fn heads_prefix() -> Seq<u8> {
    seq![0x72u8, 0x65u8, 0x66u8, 0x73u8, 0x2fu8, 0x68u8, 0x65u8, 0x61u8, 0x64u8, 0x73u8, 0x2fu8]
}

/// Whether `s` ends in the peeled-tag marker.
pub open spec fn is_peeled(s: Seq<u8>) -> bool {
    s.len() >= 3 && s.subrange(s.len() - 3, s.len() as int) == peel_suffix()
}

/// Whether `s` starts with `pre`.
pub open spec fn has_prefix(s: Seq<u8>, pre: Seq<u8>) -> bool {
    s.len() >= pre.len() && s.take(pre.len() as int) == pre
}

/// A classified reference, at the level of character sequences.
pub enum GitRefModel {
    /// A direct tag reference: the tag's short name.
    Tag(Seq<char>),
    /// A branch head: the short name and the hex object id it points at.
    Heads(Seq<char>, Seq<char>),
}

/// A classified reference from the advertisement.
#[derive(Debug, Clone, PartialEq, Eq)]
pub enum GitRefs {
    /// A direct tag reference: the tag's short name.
    Tag(String),
    /// A branch head: the short name and the hex object id it points at.
    Heads(String, String),
}

impl View for GitRefs {
    type V = GitRefModel;

    open spec fn view(&self) -> GitRefModel {
        match self {
            GitRefs::Tag(n) => GitRefModel::Tag(n@),
            GitRefs::Heads(n, r) => GitRefModel::Heads(n@, r@),
        }
    }
}

impl GitRefs {
    /// The reference's short name.
    pub fn name(&self) -> (r: String)
        ensures
            r@ == (match self@ {
                GitRefModel::Tag(n) => n,
                GitRefModel::Heads(n, _) => n,
            }),
    {
        match self {
            GitRefs::Tag(n) => n.clone(),
            GitRefs::Heads(n, _) => n.clone(),
        }
    }
}

/// How one token/payload pair is classified.  A peeled tag is dropped; a
/// `refs/tags/` payload names a tag; a `refs/heads/` payload names a
/// branch whose id is the line's token; anything else — `HEAD`,
/// capability lines, other reference namespaces — is dropped, as is any
/// name that is not valid UTF-8.
pub open spec fn classify_ref(hex: Seq<u8>, payload: Seq<u8>) -> Option<GitRefModel> {
    if is_peeled(payload) {
        None
    } else if has_prefix(payload, tags_prefix()) {
        let name = payload.skip(10);
        if valid_utf8(name) {
            Some(GitRefModel::Tag(decode_utf8(name)))
        } else {
            None
        }
    } else if has_prefix(payload, heads_prefix()) {
        let name = payload.skip(11);
        if valid_utf8(name) && valid_utf8(hex) {
            Some(GitRefModel::Heads(decode_utf8(name), decode_utf8(hex)))
        } else {
            None
        }
    } else {
        None
    }
}

/// A payload that ends in the peeled-tag marker `^{}` never yields a
/// reference, whatever else it holds.
pub proof fn lemma_peeled_tags_excluded(hex: Seq<u8>, payload: Seq<u8>)
    requires
        is_peeled(payload),
    ensures
        classify_ref(hex, payload) is None,
{
}

/// The classification of every pair, dropped pairs left out.
pub open spec fn classify_all(pairs: Seq<(Seq<u8>, Seq<u8>)>) -> Seq<GitRefModel>
    decreases pairs.len(),
{
    if pairs.len() == 0 {
        Seq::empty()
    } else {
        let rest = classify_all(pairs.drop_first());
        match classify_ref(pairs[0].0, pairs[0].1) {
            Some(r) => seq![r] + rest,
            None => rest,
        }
    }
}

/// The views of a sequence of references.
pub open spec fn ref_views(rs: Seq<GitRefs>) -> Seq<GitRefModel> {
    rs.map_values(|r: GitRefs| r@)
}

/// The names of the tag references, in order.
pub open spec fn tag_names(refs: Seq<GitRefModel>) -> Seq<Seq<char>>
    decreases refs.len(),
{
    if refs.len() == 0 {
        Seq::empty()
    } else {
        let rest = tag_names(refs.drop_first());
        match refs[0] {
            GitRefModel::Tag(n) => seq![n] + rest,
            _ => rest,
        }
    }
}

/// The id of the first branch head named `name`, if any.
pub open spec fn first_branch_rev(refs: Seq<GitRefModel>, name: Seq<char>) -> Option<Seq<char>>
    decreases refs.len(),
{
    if refs.len() == 0 {
        None
    } else {
        match refs[0] {
            GitRefModel::Heads(n, rev) => if n == name {
                Some(rev)
            } else {
                first_branch_rev(refs.drop_first(), name)
            },
            _ => first_branch_rev(refs.drop_first(), name),
        }
    }
}

fn has_prefix_exec(s: &Vec<u8>, pre: &Vec<u8>) -> (b: bool)
    ensures
        b == has_prefix(s@, pre@),
{
    let m = pre.len();
    if s.len() < m {
        return false;
    }
    let mut k: usize = 0;
    while k < m
        invariant
            k <= m,
            m == pre@.len(),
            m <= s@.len(),
            forall|j: int| 0 <= j < k ==> s@[j] == pre@[j],
        decreases m - k,
    {
        if s[k] != pre[k] {
            proof {
                assert(s@.take(m as int)[k as int] != pre@[k as int]);
            }
            return false;
        }
        k += 1;
    }
    proof {
        assert(s@.take(m as int) =~= pre@);
    }
    true
}

fn is_peeled_exec(p: &Vec<u8>) -> (b: bool)
    ensures
        b == is_peeled(p@),
{
    let n = p.len();
    if n < 3 {
        return false;
    }
    proof {
        assert(peel_suffix()[0] == 0x5eu8);
        assert(peel_suffix()[1] == 0x7bu8);
        assert(peel_suffix()[2] == 0x7du8);
        assert(p@.subrange(n - 3, n as int)[0] == p@[n - 3]);
        assert(p@.subrange(n - 3, n as int)[1] == p@[n - 2]);
        assert(p@.subrange(n - 3, n as int)[2] == p@[n - 1]);
    }
    let r = p[n - 3] == 0x5e && p[n - 2] == 0x7b && p[n - 1] == 0x7d;
    proof {
        if r {
            assert(p@.subrange(n - 3, n as int) =~= peel_suffix());
        }
    }
    r
}

fn tags_prefix_vec() -> (v: Vec<u8>)
    ensures
        v@ == tags_prefix(),
{
    let mut v: Vec<u8> = Vec::new();
    v.push(0x72);
    v.push(0x65);
    v.push(0x66);
    v.push(0x73);
    v.push(0x2f);
    v.push(0x74);
    v.push(0x61);
    v.push(0x67);
    v.push(0x73);
    v.push(0x2f);
    proof {
        assert(v@ =~= tags_prefix());
    }
    v
}

fn heads_prefix_vec() -> (v: Vec<u8>)
    ensures
        v@ == heads_prefix(),
{
    let mut v: Vec<u8> = Vec::new();
    v.push(0x72);
    v.push(0x65);
    v.push(0x66);
    v.push(0x73);
    v.push(0x2f);
    v.push(0x68);
    v.push(0x65);
    v.push(0x61);
    v.push(0x64);
    v.push(0x73);
    v.push(0x2f);
    proof {
        assert(v@ =~= heads_prefix());
    }
    v
}

/// Decode the advertisement and classify every reference in it; see
/// [`classify_ref`].  A stream without one complete line is a
/// [`ProtocolError::MalformedPktLine`].
pub fn collect_git_refs(input: &[u8]) -> (r: Result<Vec<GitRefs>, ProtocolError>)
    ensures
        r is Ok <==> manifest_from(input@, 0).0.len() != 0,
        r matches Ok(refs) ==> ref_views(refs@) == classify_all(manifest_from(input@, 0).0),
        r matches Err(e) ==> e == ProtocolError::MalformedPktLine,
{
    let (pairs, _rest) = match parse_git_manifest(input) {
        Ok(v) => v,
        Err(e) => {
            return Err(e);
        },
    };
    let ghost parsed = manifest_from(input@, 0).0;
    let tags_pre = tags_prefix_vec();
    let heads_pre = heads_prefix_vec();
    let mut out: Vec<GitRefs> = Vec::new();
    let n = pairs.len();
    let mut i: usize = 0;
    proof {
        assert(parsed.skip(0) =~= parsed);
    }
    while i < n
        invariant
            i <= n,
            n == pairs@.len(),
            parsed == crate::pktline::pair_views(pairs@),
            tags_pre@ == tags_prefix(),
            heads_pre@ == heads_prefix(),
            classify_all(parsed) =~= ref_views(out@) + classify_all(parsed.skip(i as int)),
        decreases n - i,
    {
        proof {
            assert(parsed.skip(i as int)[0] == (pairs@[i as int].0@, pairs@[i as int].1@));
            assert(parsed.skip(i as int).drop_first() =~= parsed.skip(i as int + 1));
        }
        let ghost hex_bytes = pairs@[i as int].0@;
        let ghost pay_bytes = pairs@[i as int].1@;
        if is_peeled_exec(&pairs[i].1) {
        } else if has_prefix_exec(&pairs[i].1, &tags_pre) {
            let plen = pairs[i].1.len();
            let name_bytes = slice_to_vec(&pairs[i].1.as_slice()[10..plen]);
            proof {
                assert(name_bytes@ =~= pay_bytes.skip(10));
            }
            match bytes_to_string(name_bytes) {
                Some(s) => {
                    let ghost old_out = out@;
                    out.push(GitRefs::Tag(s));
                    proof {
                        assert(ref_views(out@) =~= ref_views(old_out).push(
                            GitRefModel::Tag(decode_utf8(pay_bytes.skip(10))),
                        ));
                    }
                },
                None => {},
            }
        } else if has_prefix_exec(&pairs[i].1, &heads_pre) {
            let plen = pairs[i].1.len();
            let name_bytes = slice_to_vec(&pairs[i].1.as_slice()[11..plen]);
            let hlen = pairs[i].0.len();
            let rev_bytes = slice_to_vec(&pairs[i].0.as_slice()[0..hlen]);
            proof {
                assert(name_bytes@ =~= pay_bytes.skip(11));
                assert(rev_bytes@ =~= hex_bytes);
            }
            let name_opt = bytes_to_string(name_bytes);
            let rev_opt = bytes_to_string(rev_bytes);
            match (name_opt, rev_opt) {
                (Some(nm), Some(rv)) => {
                    let ghost old_out = out@;
                    out.push(GitRefs::Heads(nm, rv));
                    proof {
                        assert(ref_views(out@) =~= ref_views(old_out).push(
                            GitRefModel::Heads(
                                decode_utf8(pay_bytes.skip(11)),
                                decode_utf8(hex_bytes),
                            ),
                        ));
                    }
                },
                _ => {},
            }
        }
        i += 1;
    }
    proof {
        assert(parsed.skip(n as int).len() == 0);
        assert(ref_views(out@) =~= classify_all(parsed));
    }
    Ok(out)
}

/// The raw Git strategy's settings.
pub struct GitChecker {
    pub url: String,
    pub branch: Option<String>,
    pub pattern: Option<String>,
}

impl GitChecker {
    /// Whether construction succeeds on this configuration.
    pub open spec fn new_ok(config: &Config) -> bool {
        config.spec_get("url"@) is Some
    }

    /// The fields a checker built from `config` holds.
    pub open spec fn matches_config(&self, config: &Config) -> bool {
        &&& config.spec_get("url"@) == Some(self.url@)
        &&& match self.branch {
            Some(b) => config.spec_get("branch"@) == Some(b@),
            None => config.spec_get("branch"@) is None,
        }
        &&& match self.pattern {
            Some(p) => config.spec_get("pattern"@) == Some(p@),
            None => config.spec_get("pattern"@) is None,
        }
    }

    /// Whether the configured pattern, if any, compiles.
    pub open spec fn pattern_ok(&self) -> bool {
        match self.pattern {
            Some(p) => re_valid(p@),
            None => true,
        }
    }

    /// The tag names that survive the configured pattern.
    pub open spec fn candidates(&self, body: Seq<u8>) -> Seq<Seq<char>> {
        let refs = classify_all(manifest_from(body, 0).0);
        let tags = tag_names(refs);
        match self.pattern {
            Some(p) => extract_spec(p@, tags),
            None => tags,
        }
    }

    /// The construction failure this strategy reports; see [`Self::new`].
    pub open spec fn new_err(config: &Config, e: CheckError) -> bool {
        e matches CheckError::Config(ConfigError::MissingField(f, _)) && f@ == "url"@
    }

    /// Build the checker: `url` is required, `branch` and `pattern` are
    /// optional.
    pub fn new(config: &Config) -> (r: Result<GitChecker, CheckError>)
        ensures
            r is Ok <==> Self::new_ok(config),
            r matches Ok(c) ==> c.matches_config(config),
            r matches Err(e) ==> Self::new_err(config, e),
    {
        let url = match config.get("url") {
            Some(u) => u,
            None => {
                return Err(CheckError::Config(ConfigError::MissingField(
                    String::from_str("url"),
                    String::from_str("Repository URL"),
                )));
            },
        };
        let branch = config.get("branch");
        let pattern = config.get("pattern");
        Ok(GitChecker { url, branch, pattern })
    }

    /// The one exchange this strategy needs: fetch the advertisement as a
    /// Git client would.
    pub fn request(&self) -> (r: HttpRequest)
        ensures
            r.method == HttpMethod::Get,
            r.url@ == self.url@ + "/info/refs?service=git-upload-pack"@,
            r.headers@.len() == 2,
            r.headers@[0].0@ == "User-Agent"@ && r.headers@[0].1@ == "git/2.31.1"@,
            r.headers@[1].0@ == "git-protocol"@ && r.headers@[1].1@ == "version=2"@,
            r.body is None,
            r.check_status == true,
            r.max_body is None,
    {
        let mut url = self.url.clone();
        url.append("/info/refs?service=git-upload-pack");
        let mut headers: Vec<(String, String)> = Vec::new();
        headers.push((String::from_str("User-Agent"), String::from_str("git/2.31.1")));
        headers.push((String::from_str("git-protocol"), String::from_str("version=2")));
        HttpRequest {
            method: HttpMethod::Get,
            url,
            headers,
            body: None,
            check_status: true,
            max_body: None,
        }
    }

    /// Judge the advertisement.  With a branch configured, the id of the
    /// first head of that name is returned and every tag is ignored; a
    /// missing branch is an empty result.  Without one, the tags are
    /// filtered by the pattern, if any, and the retained candidate of the
    /// version scan is returned.  An empty id or winner is no answer at
    /// all and counts as an empty result: a successful check never hands
    /// back an empty string.
    pub fn resolve(&self, body: &[u8]) -> (r: Result<String, CheckError>)
        ensures
            manifest_from(body@, 0).0.len() == 0 ==> (r matches Err(e) && e == CheckError::Protocol(
                ProtocolError::MalformedPktLine,
            )),
            ({
                &&& manifest_from(body@, 0).0.len() != 0
                &&& self.branch is Some
            }) ==> (match first_branch_rev(
                classify_all(manifest_from(body@, 0).0),
                self.branch.unwrap()@,
            ) {
                Some(rev) => if rev.len() == 0 {
                    r matches Err(e) && (e matches CheckError::EmptyResult(c) && c@ == self.url@)
                } else {
                    r matches Ok(s) && s@ == rev
                },
                None => r matches Err(e) && (e matches CheckError::EmptyResult(c) && c@
                    == self.url@),
            }),
            ({
                &&& manifest_from(body@, 0).0.len() != 0
                &&& self.branch is None
                &&& !self.pattern_ok()
            }) ==> (r matches Err(e) && (e matches CheckError::Config(ConfigError::InvalidPattern(p))
                && p@ == self.pattern.unwrap()@)),
            ({
                &&& manifest_from(body@, 0).0.len() != 0
                &&& self.branch is None
                &&& self.pattern_ok()
            }) ==> ({
                let cands = self.candidates(body@);
                if cands.len() == 0 || best_of(cands).len() == 0 {
                    r matches Err(e) && (e matches CheckError::EmptyResult(c) && c@ == self.url@)
                } else {
                    r matches Ok(s) && s@ == best_of(cands)
                }
            }),
            r matches Ok(s) ==> s@.len() > 0,
    {
        let refs = match collect_git_refs(body) {
            Ok(refs) => refs,
            Err(e) => {
                return Err(CheckError::Protocol(e));
            },
        };
        let ghost models = ref_views(refs@);
        match &self.branch {
            Some(branch) => {
                let n = refs.len();
                let mut i: usize = 0;
                proof {
                    assert(models.skip(0) =~= models);
                }
                while i < n
                    invariant
                        i <= n,
                        n == refs@.len(),
                        models == ref_views(refs@),
                        manifest_from(body@, 0).0.len() != 0,
                        models == classify_all(manifest_from(body@, 0).0),
                        self.branch matches Some(b) && b@ == branch@,
                        first_branch_rev(models, branch@) == first_branch_rev(
                            models.skip(i as int),
                            branch@,
                        ),
                    decreases n - i,
                {
                    proof {
                        assert(models.skip(i as int)[0] == refs@[i as int]@);
                        assert(models.skip(i as int).drop_first() =~= models.skip(i as int + 1));
                    }
                    match &refs[i] {
                        GitRefs::Heads(name, rev) => {
                            proof {
                                assert(models.skip(i as int)[0] == GitRefModel::Heads(name@, rev@));
                            }
                            if *name == *branch {
                                let id = rev.clone();
                                if id.as_str().unicode_len() == 0 {
                                    return Err(CheckError::EmptyResult(self.url.clone()));
                                }
                                return Ok(id);
                            }
                        },
                        _ => {},
                    }
                    i += 1;
                }
                proof {
                    assert(models.skip(n as int).len() == 0);
                }
                Err(CheckError::EmptyResult(self.url.clone()))
            },
            None => {
                let mut tags: Vec<String> = Vec::new();
                let n = refs.len();
                let mut i: usize = 0;
                proof {
                    assert(models.skip(0) =~= models);
                }
                while i < n
                    invariant
                        i <= n,
                        n == refs@.len(),
                        models == ref_views(refs@),
                        manifest_from(body@, 0).0.len() != 0,
                        models == classify_all(manifest_from(body@, 0).0),
                        self.branch is None,
                        tag_names(models) =~= str_views(tags@) + tag_names(models.skip(i as int)),
                    decreases n - i,
                {
                    proof {
                        assert(models.skip(i as int)[0] == refs@[i as int]@);
                        assert(models.skip(i as int).drop_first() =~= models.skip(i as int + 1));
                    }
                    match &refs[i] {
                        GitRefs::Tag(name) => {
                            let ghost old_tags = tags@;
                            tags.push(name.clone());
                            proof {
                                assert(str_views(tags@) =~= str_views(old_tags).push(
                                    refs@[i as int]@->Tag_0,
                                ));
                            }
                        },
                        _ => {},
                    }
                    i += 1;
                }
                proof {
                    assert(models.skip(n as int).len() == 0);
                    assert(str_views(tags@) =~= tag_names(models));
                }
                let cands = match &self.pattern {
                    Some(p) => {
                        match extract_versions(p.as_str(), &tags) {
                            Ok(v) => v,
                            Err(e) => {
                                return Err(e);
                            },
                        }
                    },
                    None => tags,
                };
                let chosen = match select_latest(&cands) {
                    Some(best) => best,
                    None => {
                        return Err(CheckError::EmptyResult(self.url.clone()));
                    },
                };
                if chosen.as_str().unicode_len() == 0 {
                    return Err(CheckError::EmptyResult(self.url.clone()));
                }
                Ok(chosen)
            },
        }
    }
}

} // verus!
