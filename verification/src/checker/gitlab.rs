//! The GitLab strategy: list a project's tags through the REST interface
//! of a configurable instance.

use vstd::prelude::*;
use vstd::string::StrSliceExecFns;
use vstd::string::StringExecFns;
use vstd::string::StringSliceAdditionalSpecFns;

use crate::config::Config;
use crate::errors::CheckError;
use crate::errors::ConfigError;
use crate::extract::extract_spec;
use crate::extract::extract_versions;
use crate::net::HttpMethod;
use crate::net::HttpRequest;
use crate::net::percent_encode_str;
use crate::net::percent_encoded;
use crate::pattern::re_valid;
use crate::vercmp::best_of;
use crate::vercmp::select_latest;
use crate::vercmp::str_views;

verus! {

/// The GitLab strategy's settings.
pub struct GitLabChecker {
    pub instance: String,
    pub repo: String,
    pub pattern: Option<String>,
    pub sort_version: bool,
}

impl GitLabChecker {
    /// Whether construction succeeds on this configuration.
    pub open spec fn new_ok(config: &Config) -> bool {
        config.spec_get("repo"@) is Some
    }

    /// The fields a checker built from `config` holds.
    pub open spec fn matches_config(&self, config: &Config) -> bool {
        &&& config.spec_get("repo"@) == Some(self.repo@)
        &&& self.instance@ == (match config.spec_get("instance"@) {
            Some(v) => v,
            None => "https://gitlab.com"@,
        })
        &&& match self.pattern {
            Some(p) => config.spec_get("pattern"@) == Some(p@),
            None => config.spec_get("pattern"@) is None,
        }
        &&& self.sort_version == (match config.spec_get("sort_version"@) {
            Some(v) => v == "true"@,
            None => false,
        })
    }

    /// Whether the configured pattern, if any, compiles.
    pub open spec fn pattern_ok(&self) -> bool {
        match self.pattern {
            Some(p) => re_valid(p@),
            None => true,
        }
    }

    /// The tag names that survive the configured pattern.
    pub open spec fn spec_candidates(&self, names: Seq<Seq<char>>) -> Seq<Seq<char>> {
        match self.pattern {
            Some(p) => extract_spec(p@, names),
            None => names,
        }
    }

    /// The construction failure this strategy reports; see [`Self::new`].
    pub open spec fn new_err(config: &Config, e: CheckError) -> bool {
        e matches CheckError::Config(ConfigError::MissingField(f, _)) && f@ == "repo"@
    }

    /// Build the checker: `repo` is required; `instance` defaults to the
    /// public gitlab.com; `pattern` and `sort_version` are optional.
    pub fn new(config: &Config) -> (r: Result<GitLabChecker, CheckError>)
        ensures
            r is Ok <==> Self::new_ok(config),
            r matches Ok(c) ==> c.matches_config(config),
            r matches Err(e) ==> Self::new_err(config, e),
    {
        let repo = match config.get("repo") {
            Some(v) => v,
            None => {
                return Err(CheckError::Config(ConfigError::MissingField(
                    String::from_str("repo"),
                    String::from_str("Repository slug or Project ID"),
                )));
            },
        };
        let instance = match config.get("instance") {
            Some(v) => v,
            None => String::from_str("https://gitlab.com"),
        };
        let pattern = config.get("pattern");
        let sort_version = match config.get("sort_version") {
            Some(v) => v == String::from_str("true"),
            None => false,
        };
        Ok(GitLabChecker { instance, repo, pattern, sort_version })
    }

    /// The one exchange this strategy needs: the project's tag list, the
    /// project named by its percent-encoded slug or id.
    pub fn request(&self) -> (r: HttpRequest)
        ensures
            r.method == HttpMethod::Get,
            r.url@ == self.instance@ + "/api/v4/projects/"@ + percent_encoded(
                vstd::utf8::encode_utf8(self.repo@),
            ) + "/repository/tags"@,
            r.headers@.len() == 0,
            r.body is None,
            r.check_status == true,
            r.max_body is None,
    {
        let mut url = self.instance.clone();
        url.append("/api/v4/projects/");
        let encoded = percent_encode_str(self.repo.as_str());
        url.append(encoded.as_str());
        url.append("/repository/tags");
        HttpRequest {
            method: HttpMethod::Get,
            url,
            headers: Vec::new(),
            body: None,
            check_status: true,
            max_body: None,
        }
    }

    /// Judge the tag list: filter by the pattern, if any; an empty
    /// outcome is an empty result; with version sorting on, the retained
    /// candidate of the version scan wins, else the first entry.  An
    /// empty winner is no version at all and counts as an empty result:
    /// a successful check never hands back an empty string.
    pub fn resolve(&self, names: &Vec<String>) -> (r: Result<String, CheckError>)
        ensures
            !self.pattern_ok() ==> (r matches Err(e) && (e matches CheckError::Config(
                ConfigError::InvalidPattern(p),
            ) && p@ == self.pattern.unwrap()@)),
            self.pattern_ok() ==> ({
                let cands = self.spec_candidates(str_views(names@));
                let chosen = if self.sort_version {
                    best_of(cands)
                } else {
                    cands[0]
                };
                if cands.len() == 0 || chosen.len() == 0 {
                    r matches Err(e) && (e matches CheckError::EmptyResult(c) && c@
                        == self.instance@)
                } else {
                    r matches Ok(s) && s@ == chosen
                }
            }),
            r matches Ok(s) ==> s@.len() > 0,
    {
        let cands = match &self.pattern {
            Some(p) => {
                match extract_versions(p.as_str(), names) {
                    Ok(v) => v,
                    Err(e) => {
                        return Err(e);
                    },
                }
            },
            None => {
                let mut copy: Vec<String> = Vec::new();
                let mut i: usize = 0;
                while i < names.len()
                    invariant
                        i <= names@.len(),
                        copy@.len() == i,
                        forall|j: int| 0 <= j < i ==> copy@[j]@ == names@[j]@,
                    decreases names@.len() - i,
                {
                    copy.push(names[i].clone());
                    i += 1;
                }
                proof {
                    assert(str_views(copy@) =~= str_views(names@));
                }
                copy
            },
        };
        if cands.len() == 0 {
            return Err(CheckError::EmptyResult(self.instance.clone()));
        }
        let chosen = if self.sort_version {
            match select_latest(&cands) {
                Some(best) => best,
                None => unreached(),
            }
        } else {
            cands[0].clone()
        };
        if chosen.as_str().unicode_len() == 0 {
            return Err(CheckError::EmptyResult(self.instance.clone()));
        }
        Ok(chosen)
    }
}

} // verus!
