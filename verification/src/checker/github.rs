//! The GitHub strategy: list a repository's tags through the GraphQL
//! interface, or read a branch's newest commit through the REST one.
//! Both paths need a configured credential; there is no unauthenticated
//! fallback.

use vstd::prelude::*;
use vstd::string::StrSliceExecFns;
use vstd::string::StringExecFns;
use vstd::utf8::encode_utf8;

use crate::config::Config;
use crate::errors::CheckError;
use crate::errors::ConfigError;
use crate::extract::extract_spec;
use crate::extract::extract_versions;
use crate::net::HttpMethod;
use crate::net::HttpRequest;
use crate::net::percent_encode_str;
use crate::net::percent_encoded;
use crate::pattern::re_valid;
use crate::vercmp::best_of;
use crate::vercmp::chars_of;
use crate::vercmp::select_latest;
use crate::vercmp::str_views;

verus! {

/// Position of the first `/` at or after `i`, or the end.
pub open spec fn slash_pos(s: Seq<char>, i: int) -> int
    decreases s.len() - i,
    when 0 <= i <= s.len()
{
    if i < s.len() && s[i] != '/' {
        slash_pos(s, i + 1)
    } else {
        i
    }
}

/// A repository slug split at its first `/`: the owner and the name.
/// A slug without a `/` has no name and cannot be used.
pub open spec fn slug_split(repo: Seq<char>) -> Option<(Seq<char>, Seq<char>)> {
    let p = slash_pos(repo, 0);
    if p == repo.len() {
        None
    } else {
        Some((repo.take(p), repo.skip(p + 1)))
    }
}

/// The GraphQL document that asks for a repository's newest tag names.
pub open spec fn graphql_tags_query(owner: Seq<char>, name: Seq<char>) -> Seq<char> {
    "query { repository(owner: \""@ + owner + "\", name: \""@ + name
        + "\") { refs(refPrefix: \"refs/tags/\", last: 100) { nodes { name } } } }"@
}

/// The REST address that asks for the newest commit of a branch.
pub open spec fn commits_url(owner: Seq<char>, name: Seq<char>, branch: Seq<char>) -> Seq<char> {
    "https://api.github.com/repos/"@ + owner + "/"@ + name + "/commits?per_page=1&sha="@
        + percent_encoded(encode_utf8(branch))
}

/// The GitHub strategy's settings.
pub struct GitHubChecker {
    pub repo: String,
    pub pattern: Option<String>,
    pub sort_version: bool,
    pub branch: Option<String>,
    pub token: Option<String>,
}

impl GitHubChecker {
    /// Whether construction succeeds on this configuration.
    pub open spec fn new_ok(config: &Config) -> bool {
        config.spec_get("repo"@) is Some
    }

    /// The fields a checker built from `config` holds.  The credential is
    /// threaded through the configuration under `github_token`; reading
    /// it from the environment is the caller's business.
    pub open spec fn matches_config(&self, config: &Config) -> bool {
        &&& config.spec_get("repo"@) == Some(self.repo@)
        &&& match self.pattern {
            Some(p) => config.spec_get("pattern"@) == Some(p@),
            None => config.spec_get("pattern"@) is None,
        }
        &&& match self.branch {
            Some(b) => config.spec_get("branch"@) == Some(b@),
            None => config.spec_get("branch"@) is None,
        }
        &&& match self.token {
            Some(t) => config.spec_get("github_token"@) == Some(t@),
            None => config.spec_get("github_token"@) is None,
        }
        &&& self.sort_version == (match config.spec_get("sort_version"@) {
            Some(v) => v == "true"@,
            None => false,
        })
    }

    /// Whether the configured pattern, if any, compiles.
    pub open spec fn pattern_ok(&self) -> bool {
        match self.pattern {
            Some(p) => re_valid(p@),
            None => true,
        }
    }

    /// The tag names that survive the configured pattern.
    pub open spec fn spec_candidates(&self, names: Seq<Seq<char>>) -> Seq<Seq<char>> {
        match self.pattern {
            Some(p) => extract_spec(p@, names),
            None => names,
        }
    }

    /// The construction failure this strategy reports; see [`Self::new`].
    pub open spec fn new_err(config: &Config, e: CheckError) -> bool {
        e matches CheckError::Config(ConfigError::MissingField(f, _)) && f@ == "repo"@
    }

    /// Build the checker: `repo` is required; `pattern`, `branch`,
    /// `sort_version` and `github_token` are optional at this stage.
    pub fn new(config: &Config) -> (r: Result<GitHubChecker, CheckError>)
        ensures
            r is Ok <==> Self::new_ok(config),
            r matches Ok(c) ==> c.matches_config(config),
            r matches Err(e) ==> Self::new_err(config, e),
    {
        let repo = match config.get("repo") {
            Some(v) => v,
            None => {
                return Err(CheckError::Config(ConfigError::MissingField(
                    String::from_str("repo"),
                    String::from_str("Repository slug"),
                )));
            },
        };
        let pattern = config.get("pattern");
        let branch = config.get("branch");
        let token = config.get("github_token");
        let sort_version = match config.get("sort_version") {
            Some(v) => v == String::from_str("true"),
            None => false,
        };
        Ok(GitHubChecker { repo, pattern, sort_version, branch, token })
    }

    /// Split the configured slug at its first `/`.
    fn split_slug(&self) -> (r: Result<(String, String), CheckError>)
        ensures
            r is Ok <==> slug_split(self.repo@) is Some,
            r matches Ok(v) ==> slug_split(self.repo@) == Some((v.0@, v.1@)),
            r matches Err(e) ==> (e matches CheckError::Config(ConfigError::InvalidField(f)) && f@
                == "repo"@),
    {
        let rv = chars_of(self.repo.as_str());
        let n = rv.len();
        let mut p: usize = 0;
        while p < n && rv[p] != '/'
            invariant
                p <= n,
                n == rv@.len(),
                rv@ == self.repo@,
                slash_pos(self.repo@, 0) == slash_pos(self.repo@, p as int),
            decreases n - p,
        {
            p += 1;
        }
        if p == n {
            return Err(CheckError::Config(ConfigError::InvalidField(String::from_str("repo"))));
        }
        let owner = String::from_str(self.repo.as_str().substring_char(0, p));
        let name = String::from_str(self.repo.as_str().substring_char(p + 1, n));
        proof {
            assert(owner@ =~= self.repo@.take(p as int));
            assert(name@ =~= self.repo@.skip(p as int + 1));
        }
        Ok((owner, name))
    }

    /// The one exchange this strategy needs.  Without a credential
    /// nothing is asked; with a branch configured it is the branch's
    /// newest commit over REST, else the tag list over GraphQL, the
    /// document carried as the request body for the caller to wrap.
    pub fn request(&self) -> (r: Result<HttpRequest, CheckError>)
        ensures
            self.token is None ==> r == Err::<HttpRequest, CheckError>(CheckError::Config(
                ConfigError::MissingCredential,
            )),
            self.token is Some && slug_split(self.repo@) is None ==> (r matches Err(e) && (e
                matches CheckError::Config(ConfigError::InvalidField(f)) && f@ == "repo"@)),
            self.token is Some ==> (slug_split(self.repo@) matches Some(on) ==> (r matches Ok(req)
                && ({
                &&& req.headers@.len() == 2
                &&& req.headers@[0].0@ == "User-Agent"@ && req.headers@[0].1@
                    == "AOSCFindUpdate/0.1.0"@
                &&& req.headers@[1].0@ == "Authorization"@ && req.headers@[1].1@ == "token "@
                    + self.token.unwrap()@
                &&& req.check_status == true
                &&& req.max_body is None
                &&& match self.branch {
                    Some(b) => req.method == HttpMethod::Get && req.url@ == commits_url(
                        on.0,
                        on.1,
                        b@,
                    ) && req.body is None,
                    None => ({
                        &&& req.method == HttpMethod::Post
                        &&& req.url@ == "https://api.github.com/graphql"@
                        &&& req.body matches Some(q) && q@ == graphql_tags_query(on.0, on.1)
                    }),
                }
            }))),
    {
        let token = match &self.token {
            Some(t) => t,
            None => {
                return Err(CheckError::Config(ConfigError::MissingCredential));
            },
        };
        let (owner, name) = match self.split_slug() {
            Ok(v) => v,
            Err(e) => {
                return Err(e);
            },
        };
        let mut auth = String::from_str("token ");
        auth.append(token.as_str());
        let mut headers: Vec<(String, String)> = Vec::new();
        headers.push((String::from_str("User-Agent"), String::from_str("AOSCFindUpdate/0.1.0")));
        headers.push((String::from_str("Authorization"), auth));
        match &self.branch {
            Some(b) => {
                let mut url = String::from_str("https://api.github.com/repos/");
                url.append(owner.as_str());
                url.append("/");
                url.append(name.as_str());
                url.append("/commits?per_page=1&sha=");
                let encoded = percent_encode_str(b.as_str());
                url.append(encoded.as_str());
                Ok(
                    HttpRequest {
                        method: HttpMethod::Get,
                        url,
                        headers,
                        body: None,
                        check_status: true,
                        max_body: None,
                    },
                )
            },
            None => {
                let mut query = String::from_str("query { repository(owner: \"");
                query.append(owner.as_str());
                query.append("\", name: \"");
                query.append(name.as_str());
                query.append(
                    "\") { refs(refPrefix: \"refs/tags/\", last: 100) { nodes { name } } } }",
                );
                Ok(
                    HttpRequest {
                        method: HttpMethod::Post,
                        url: String::from_str("https://api.github.com/graphql"),
                        headers,
                        body: Some(query),
                        check_status: true,
                        max_body: None,
                    },
                )
            },
        }
    }

    /// Judge the tag list: filter by the pattern, if any; an empty
    /// outcome is an empty result; with version sorting on, the retained
    /// candidate of the version scan wins, else the first entry.  An
    /// empty winner is no version at all and counts as an empty result:
    /// a successful check never hands back an empty string.
    pub fn resolve_tags(&self, names: &Vec<String>) -> (r: Result<String, CheckError>)
        ensures
            !self.pattern_ok() ==> (r matches Err(e) && (e matches CheckError::Config(
                ConfigError::InvalidPattern(p),
            ) && p@ == self.pattern.unwrap()@)),
            self.pattern_ok() ==> ({
                let cands = self.spec_candidates(str_views(names@));
                let chosen = if self.sort_version {
                    best_of(cands)
                } else {
                    cands[0]
                };
                if cands.len() == 0 || chosen.len() == 0 {
                    r matches Err(e) && (e matches CheckError::EmptyResult(c) && c@ == self.repo@)
                } else {
                    r matches Ok(s) && s@ == chosen
                }
            }),
            r matches Ok(s) ==> s@.len() > 0,
    {
        let cands = match &self.pattern {
            Some(p) => {
                match extract_versions(p.as_str(), names) {
                    Ok(v) => v,
                    Err(e) => {
                        return Err(e);
                    },
                }
            },
            None => {
                let mut copy: Vec<String> = Vec::new();
                let mut i: usize = 0;
                while i < names.len()
                    invariant
                        i <= names@.len(),
                        copy@.len() == i,
                        forall|j: int| 0 <= j < i ==> copy@[j]@ == names@[j]@,
                    decreases names@.len() - i,
                {
                    copy.push(names[i].clone());
                    i += 1;
                }
                proof {
                    assert(str_views(copy@) =~= str_views(names@));
                }
                copy
            },
        };
        if cands.len() == 0 {
            return Err(CheckError::EmptyResult(self.repo.clone()));
        }
        let chosen = if self.sort_version {
            match select_latest(&cands) {
                Some(best) => best,
                None => unreached(),
            }
        } else {
            cands[0].clone()
        };
        if chosen.as_str().unicode_len() == 0 {
            return Err(CheckError::EmptyResult(self.repo.clone()));
        }
        Ok(chosen)
    }

    /// Judge the commit list of the branch path: the first entry's id is
    /// the answer; an empty list, or an empty first id, is an empty
    /// result: a successful check never hands back an empty string.
    pub fn resolve_commits(&self, shas: &Vec<String>) -> (r: Result<String, CheckError>)
        ensures
            (shas@.len() == 0 || shas@[0]@.len() == 0) ==> (r matches Err(e) && (e matches
                CheckError::EmptyResult(c) && c@ == self.repo@)),
            (shas@.len() > 0 && shas@[0]@.len() > 0) ==> (r matches Ok(s) && s@ == shas@[0]@),
            r matches Ok(s) ==> s@.len() > 0,
    {
        if shas.len() == 0 {
            return Err(CheckError::EmptyResult(self.repo.clone()));
        }
        let first = shas[0].clone();
        if first.as_str().unicode_len() == 0 {
            return Err(CheckError::EmptyResult(self.repo.clone()));
        }
        Ok(first)
    }
}

} // verus!
