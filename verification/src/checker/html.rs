//! The HTML strategy: fetch an arbitrary page and read versions out of it
//! with a mandatory capturing pattern.

use vstd::prelude::*;
use vstd::string::StrSliceExecFns;
use vstd::string::StringExecFns;

use crate::config::Config;
use crate::errors::CheckError;
use crate::errors::ConfigError;
use crate::net::BODY_CAP;
use crate::net::HttpMethod;
use crate::net::HttpRequest;
use crate::pattern::Pattern;
use crate::pattern::opt_views;
use crate::pattern::re_all_capture_first;
use crate::pattern::re_valid;
use crate::vercmp::best_of;
use crate::vercmp::select_latest;
use crate::vercmp::str_views;

verus! {

/// Whether every match carried a first capture group.
pub open spec fn all_captured(cs: Seq<Option<Seq<char>>>) -> bool {
    forall|i: int| 0 <= i < cs.len() ==> cs[i] is Some
}

/// The captured texts, in match order.
pub open spec fn captured_values(cs: Seq<Option<Seq<char>>>) -> Seq<Seq<char>> {
    cs.map_values(
        |o: Option<Seq<char>>|
            match o {
                Some(v) => v,
                None => Seq::empty(),
            },
    )
}

/// The HTML strategy's settings.
pub struct HTMLChecker {
    pub url: String,
    pub pattern: String,
}

impl HTMLChecker {
    /// Whether construction succeeds on this configuration.
    pub open spec fn new_ok(config: &Config) -> bool {
        config.spec_get("url"@) is Some && config.spec_get("pattern"@) is Some
    }

    /// The fields a checker built from `config` holds.
    pub open spec fn matches_config(&self, config: &Config) -> bool {
        &&& config.spec_get("url"@) == Some(self.url@)
        &&& config.spec_get("pattern"@) == Some(self.pattern@)
    }

    /// The construction failure this strategy reports; see [`Self::new`]:
    /// a missing `url` is named first, then a missing `pattern`.
    pub open spec fn new_err(config: &Config, e: CheckError) -> bool {
        if config.spec_get("url"@) is None {
            e matches CheckError::Config(ConfigError::MissingField(f, _)) && f@ == "url"@
        } else {
            e matches CheckError::Config(ConfigError::MissingField(f, _)) && f@ == "pattern"@
        }
    }

    /// Build the checker: `url` and `pattern` are both required.
    pub fn new(config: &Config) -> (r: Result<HTMLChecker, CheckError>)
        ensures
            r is Ok <==> Self::new_ok(config),
            r matches Ok(c) ==> c.matches_config(config),
            r matches Err(e) ==> Self::new_err(config, e),
    {
        let url = match config.get("url") {
            Some(v) => v,
            None => {
                return Err(CheckError::Config(ConfigError::MissingField(
                    String::from_str("url"),
                    String::from_str("HTML URL"),
                )));
            },
        };
        let pattern = match config.get("pattern") {
            Some(v) => v,
            None => {
                return Err(CheckError::Config(ConfigError::MissingField(
                    String::from_str("pattern"),
                    String::from_str("Regex pattern for matching versions"),
                )));
            },
        };
        Ok(HTMLChecker { url, pattern })
    }

    /// The one exchange this strategy needs: the page itself, with the
    /// body cap applied.
    pub fn request(&self) -> (r: HttpRequest)
        ensures
            r.method == HttpMethod::Get,
            r.url@ == self.url@,
            r.headers@.len() == 0,
            r.body is None,
            r.check_status == true,
            r.max_body == Some(BODY_CAP),
    {
        HttpRequest {
            method: HttpMethod::Get,
            url: self.url.clone(),
            headers: Vec::new(),
            body: None,
            check_status: true,
            max_body: Some(BODY_CAP),
        }
    }

    /// Judge the page: every match of the pattern must capture a group,
    /// the captures are the candidates, and the retained candidate of the
    /// version scan wins.  A pattern that does not compile, or a match
    /// without a capture group, is an invalid-pattern failure; no match
    /// at all is an empty result, as is an empty winner: a successful
    /// check never hands back an empty string.
    pub fn resolve(&self, body: &str) -> (r: Result<String, CheckError>)
        ensures
            !re_valid(self.pattern@) ==> (r matches Err(e) && (e matches CheckError::Config(
                ConfigError::InvalidPattern(p),
            ) && p@ == self.pattern@)),
            re_valid(self.pattern@) ==> ({
                let caps = re_all_capture_first(self.pattern@, body@);
                &&& !all_captured(caps) ==> (r matches Err(e) && (e matches CheckError::Config(
                    ConfigError::InvalidPattern(p),
                ) && p@ == self.pattern@))
                &&& all_captured(caps) ==> ({
                    let vals = captured_values(caps);
                    if vals.len() == 0 || best_of(vals).len() == 0 {
                        r matches Err(e) && (e matches CheckError::EmptyResult(c) && c@
                            == self.url@)
                    } else {
                        r matches Ok(s) && s@ == best_of(vals)
                    }
                })
                &&& ({
                    &&& all_captured(caps)
                    &&& captured_values(caps).len() == 1
                    &&& captured_values(caps)[0].len() > 0
                }) ==> (r matches Ok(s) && s@ == captured_values(caps)[0])
            }),
            r matches Ok(s) ==> s@.len() > 0,
    {
        let re = match Pattern::compile(self.pattern.as_str()) {
            Ok(re) => re,
            Err(e) => {
                return Err(CheckError::Config(e));
            },
        };
        let caps = re.all_capture_first(body);
        let ghost cap_views = re_all_capture_first(self.pattern@, body@);
        let mut vals: Vec<String> = Vec::new();
        let n = caps.len();
        let mut i: usize = 0;
        while i < n
            invariant
                i <= n,
                n == caps@.len(),
                re.pat() == self.pattern@,
                cap_views == opt_views(caps@),
                cap_views == re_all_capture_first(self.pattern@, body@),
                forall|j: int| 0 <= j < i ==> cap_views[j] is Some,
                vals@.len() == i,
                str_views(vals@) =~= captured_values(cap_views.take(i as int)),
            decreases n - i,
        {
            match &caps[i] {
                Some(v) => {
                    let ghost old_vals = vals@;
                    vals.push(v.clone());
                    proof {
                        assert(caps@[i as int] == Some(*v));
                        assert(cap_views[i as int] == Some(v@));
                        assert(vals@ == old_vals.push(*v));
                        assert(old_vals.len() == i);
                        assert forall|j: int|
                            0 <= j < i + 1 implies str_views(vals@)[j] == captured_values(
                            cap_views.take(i as int + 1),
                        )[j] by {
                            assert(cap_views.take(i as int + 1)[j] == cap_views[j]);
                            assert(captured_values(cap_views.take(i as int + 1))[j]
                                == (match cap_views.take(i as int + 1)[j] {
                                Some(v) => v,
                                None => Seq::empty(),
                            }));
                            if j < i {
                                assert(vals@[j] == old_vals[j]);
                                assert(str_views(vals@)[j] == old_vals[j]@);
                                assert(cap_views.take(i as int)[j] == cap_views[j]);
                                assert(str_views(old_vals)[j] == captured_values(
                                    cap_views.take(i as int),
                                )[j]);
                            } else {
                                assert(vals@[j] == *v);
                            }
                        }
                        assert(str_views(vals@) =~= captured_values(cap_views.take(i as int + 1)));
                    }
                },
                None => {
                    proof {
                        assert(cap_views[i as int] is None);
                        assert(!all_captured(cap_views));
                    }
                    return Err(CheckError::Config(ConfigError::InvalidPattern(
                        self.pattern.clone(),
                    )));
                },
            }
            i += 1;
        }
        proof {
            assert(cap_views.take(n as int) =~= cap_views);
            assert(all_captured(cap_views));
        }
        let chosen = match select_latest(&vals) {
            Some(best) => best,
            None => {
                return Err(CheckError::EmptyResult(self.url.clone()));
            },
        };
        if chosen.as_str().unicode_len() == 0 {
            return Err(CheckError::EmptyResult(self.url.clone()));
        }
        Ok(chosen)
    }
}

} // verus!
