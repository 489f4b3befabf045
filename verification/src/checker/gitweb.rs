//! The GitWeb strategy: read a project's `/tags` listing page and take
//! the elements that carry the `name` class.

use vstd::prelude::*;
use vstd::string::StrSliceExecFns;
use vstd::string::StringExecFns;

use kuchiki::traits::TendrilSink;

use crate::config::Config;
use crate::errors::CheckError;
use crate::errors::ConfigError;
use crate::extract::extract_spec;
use crate::extract::extract_versions;
use crate::net::BODY_CAP;
use crate::net::HttpMethod;
use crate::net::HttpRequest;
use crate::pattern::re_valid;
use crate::vercmp::best_of;
use crate::vercmp::select_latest;
use crate::vercmp::str_views;

verus! {

/// The text contents of the elements of the page that carry the `name`
/// class, in document order; a function of the page text alone.
pub uninterp spec fn html_name_class_texts(body: Seq<char>) -> Seq<Seq<char>>;

/// Relies on kuchiki: `parse_html().one` builds the document,
/// `select(".name")` walks the elements of that class in document order,
/// and `text_contents` reads each one's text.  The selection fails only
/// if the selector itself cannot be parsed, and the plain class selector
/// `.name` always parses, so the listing always comes back.
#[verifier::external_body]
fn select_name_class(body: &str) -> (r: Result<Vec<String>, ()>)
    ensures
        r is Ok,
        r matches Ok(v) ==> str_views(v@) == html_name_class_texts(body@),
{
    let document = kuchiki::parse_html().one(body);
    let selection = match document.select(".name") {
        Ok(s) => s,
        Err(()) => return Err(()),
    };
    let mut out = Vec::new();
    for m in selection {
        out.push(m.as_node().text_contents());
    }
    Ok(out)
}

/// The GitWeb strategy's settings.
pub struct GitWebChecker {
    pub url: String,
    pub pattern: Option<String>,
}

impl GitWebChecker {
    /// Whether construction succeeds on this configuration.
    pub open spec fn new_ok(config: &Config) -> bool {
        config.spec_get("url"@) is Some
    }

    /// The fields a checker built from `config` holds.
    pub open spec fn matches_config(&self, config: &Config) -> bool {
        &&& config.spec_get("url"@) == Some(self.url@)
        &&& match self.pattern {
            Some(p) => config.spec_get("pattern"@) == Some(p@),
            None => config.spec_get("pattern"@) is None,
        }
    }

    /// Whether the configured pattern, if any, compiles.
    pub open spec fn pattern_ok(&self) -> bool {
        match self.pattern {
            Some(p) => re_valid(p@),
            None => true,
        }
    }

    /// The listed names that survive the configured pattern.
    pub open spec fn spec_candidates(&self, names: Seq<Seq<char>>) -> Seq<Seq<char>> {
        match self.pattern {
            Some(p) => extract_spec(p@, names),
            None => names,
        }
    }

    /// The construction failure this strategy reports; see [`Self::new`].
    pub open spec fn new_err(config: &Config, e: CheckError) -> bool {
        e matches CheckError::Config(ConfigError::MissingField(f, _)) && f@ == "url"@
    }

    /// Build the checker: `url` is required, `pattern` is optional.
    pub fn new(config: &Config) -> (r: Result<GitWebChecker, CheckError>)
        ensures
            r is Ok <==> Self::new_ok(config),
            r matches Ok(c) ==> c.matches_config(config),
            r matches Err(e) ==> Self::new_err(config, e),
    {
        let url = match config.get("url") {
            Some(v) => v,
            None => {
                return Err(CheckError::Config(ConfigError::MissingField(
                    String::from_str("url"),
                    String::from_str("GitWeb project URL"),
                )));
            },
        };
        let pattern = config.get("pattern");
        Ok(GitWebChecker { url, pattern })
    }

    /// The one exchange this strategy needs: the tag listing page, with
    /// the body cap applied.
    pub fn request(&self) -> (r: HttpRequest)
        ensures
            r.method == HttpMethod::Get,
            r.url@ == self.url@ + "/tags"@,
            r.headers@.len() == 0,
            r.body is None,
            r.check_status == true,
            r.max_body == Some(BODY_CAP),
    {
        let mut url = self.url.clone();
        url.append("/tags");
        HttpRequest {
            method: HttpMethod::Get,
            url,
            headers: Vec::new(),
            body: None,
            check_status: true,
            max_body: Some(BODY_CAP),
        }
    }

    /// Pick a version out of the listed names: filter by the pattern, if
    /// any; an empty outcome is an empty result; one candidate is
    /// returned unchanged; among several the retained candidate of the
    /// version scan wins.  An empty winner is no version at all and
    /// counts as an empty result: a successful check never hands back an
    /// empty string.
    pub fn select_from_names(&self, names: &Vec<String>) -> (r: Result<String, CheckError>)
        ensures
            !self.pattern_ok() ==> (r matches Err(e) && (e matches CheckError::Config(
                ConfigError::InvalidPattern(p),
            ) && p@ == self.pattern.unwrap()@)),
            self.pattern_ok() ==> ({
                let cands = self.spec_candidates(str_views(names@));
                if cands.len() == 0 || best_of(cands).len() == 0 {
                    r matches Err(e) && (e matches CheckError::EmptyResult(c) && c@ == self.url@)
                } else {
                    r matches Ok(s) && s@ == best_of(cands)
                }
            }),
            ({
                &&& self.pattern_ok()
                &&& self.spec_candidates(str_views(names@)).len() == 1
                &&& self.spec_candidates(str_views(names@))[0].len() > 0
            }) ==> (r matches Ok(s) && s@ == self.spec_candidates(str_views(names@))[0]),
            r matches Ok(s) ==> s@.len() > 0,
    {
        let cands = match &self.pattern {
            Some(p) => {
                match extract_versions(p.as_str(), names) {
                    Ok(v) => v,
                    Err(e) => {
                        return Err(e);
                    },
                }
            },
            None => {
                let mut copy: Vec<String> = Vec::new();
                let mut i: usize = 0;
                while i < names.len()
                    invariant
                        i <= names@.len(),
                        copy@.len() == i,
                        forall|j: int| 0 <= j < i ==> copy@[j]@ == names@[j]@,
                    decreases names@.len() - i,
                {
                    copy.push(names[i].clone());
                    i += 1;
                }
                proof {
                    assert(str_views(copy@) =~= str_views(names@));
                }
                copy
            },
        };
        let chosen = match select_latest(&cands) {
            Some(best) => best,
            None => {
                return Err(CheckError::EmptyResult(self.url.clone()));
            },
        };
        if chosen.as_str().unicode_len() == 0 {
            return Err(CheckError::EmptyResult(self.url.clone()));
        }
        Ok(chosen)
    }

    /// Judge the listing page: read the `name`-class texts out of it and
    /// pick as [`Self::select_from_names`] does.
    pub fn resolve(&self, body: &str) -> (r: Result<String, CheckError>)
        ensures
            !self.pattern_ok() ==> (r matches Err(e) && (e matches CheckError::Config(
                ConfigError::InvalidPattern(p),
            ) && p@ == self.pattern.unwrap()@)),
            self.pattern_ok() ==> ({
                let cands = self.spec_candidates(html_name_class_texts(body@));
                if cands.len() == 0 || best_of(cands).len() == 0 {
                    r matches Err(e) && (e matches CheckError::EmptyResult(c) && c@ == self.url@)
                } else {
                    r matches Ok(s) && s@ == best_of(cands)
                }
            }),
            ({
                &&& self.pattern_ok()
                &&& self.spec_candidates(html_name_class_texts(body@)).len() == 1
                &&& self.spec_candidates(html_name_class_texts(body@))[0].len() > 0
            }) ==> (r matches Ok(s) && s@ == self.spec_candidates(html_name_class_texts(body@))[0]),
            r matches Ok(s) ==> s@.len() > 0,
    {
        let names = match select_name_class(body) {
            Ok(v) => v,
            Err(()) => unreached(),
        };
        self.select_from_names(&names)
    }
}

} // verus!
