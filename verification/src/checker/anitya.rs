//! The Anitya strategy: ask a release-monitoring aggregator for a
//! project's known versions by numeric id.

use vstd::prelude::*;
use vstd::string::StrSliceExecFns;
use vstd::string::StringExecFns;

use crate::config::Config;
use crate::errors::CheckError;
use crate::errors::ConfigError;
use crate::net::HttpMethod;
use crate::net::HttpRequest;
use crate::strconv::dec_digits;
use crate::strconv::parse_usize;
use crate::strconv::parse_usize_spec;
use crate::strconv::usize_to_string;
use crate::vercmp::str_views;

verus! {

/// What the aggregator answers: the project id it speaks of and its
/// version lists.  The caller decodes the JSON body into this shape.
pub struct AnityaData {
    pub id: usize,
    pub stable_versions: Vec<String>,
    pub versions: Vec<String>,
}

/// The Anitya strategy's settings.
pub struct AnityaChecker {
    pub id: usize,
    pub stable_only: bool,
}

impl AnityaChecker {
    /// Whether construction succeeds on this configuration.
    pub open spec fn new_ok(config: &Config) -> bool {
        config.spec_get("id"@) matches Some(s) && parse_usize_spec(s) is Some
    }

    /// The fields a checker built from `config` holds.
    pub open spec fn matches_config(&self, config: &Config) -> bool {
        &&& config.spec_get("id"@) matches Some(s) && parse_usize_spec(s) == Some(self.id as nat)
        &&& self.stable_only == (match config.spec_get("stable_only"@) {
            Some(v) => v == "true"@,
            None => true,
        })
    }

    /// The construction failure this strategy reports; see [`Self::new`].
    pub open spec fn new_err(config: &Config, e: CheckError) -> bool {
        match config.spec_get("id"@) {
            None => e matches CheckError::Config(ConfigError::MissingField(f, _)) && f@ == "id"@,
            Some(_) => e matches CheckError::Config(ConfigError::InvalidField(f)) && f@ == "id"@,
        }
    }

    /// Build the checker: `id` is required and must be a number;
    /// `stable_only` defaults to on.
    pub fn new(config: &Config) -> (r: Result<AnityaChecker, CheckError>)
        ensures
            r is Ok <==> Self::new_ok(config),
            r matches Ok(c) ==> c.matches_config(config),
            r matches Err(e) ==> Self::new_err(config, e),
    {
        let id_text = match config.get("id") {
            Some(v) => v,
            None => {
                return Err(CheckError::Config(ConfigError::MissingField(
                    String::from_str("id"),
                    String::from_str("Anitya project ID"),
                )));
            },
        };
        let id = match parse_usize(id_text.as_str()) {
            Some(n) => n,
            None => {
                return Err(CheckError::Config(ConfigError::InvalidField(String::from_str("id"))));
            },
        };
        let stable_only = match config.get("stable_only") {
            Some(v) => v == String::from_str("true"),
            None => true,
        };
        Ok(AnityaChecker { id, stable_only })
    }

    /// The one exchange this strategy needs.
    pub fn request(&self) -> (r: HttpRequest)
        ensures
            r.method == HttpMethod::Get,
            r.url@ == "https://release-monitoring.org/api/project/"@ + dec_digits(self.id as nat)
                + "/"@,
            r.headers@.len() == 0,
            r.body is None,
            r.check_status == true,
            r.max_body is None,
    {
        let mut url = String::from_str("https://release-monitoring.org/api/project/");
        let id_text = usize_to_string(self.id);
        url.append(id_text.as_str());
        url.append("/");
        HttpRequest {
            method: HttpMethod::Get,
            url,
            headers: Vec::new(),
            body: None,
            check_status: true,
            max_body: None,
        }
    }

    /// Judge the aggregator's answer: an answer about another project id
    /// is a serving anomaly and refused; else the first entry of the
    /// chosen list is the version, and an empty list is an empty result.
    /// An empty first entry is no version at all and counts as an empty
    /// result too: a successful check never hands back an empty string.
    pub fn resolve(&self, data: &AnityaData) -> (r: Result<String, CheckError>)
        ensures
            data.id != self.id ==> r == Err::<String, CheckError>(CheckError::Mismatch),
            data.id == self.id ==> ({
                let list = if self.stable_only {
                    str_views(data.stable_versions@)
                } else {
                    str_views(data.versions@)
                };
                if list.len() == 0 || list[0].len() == 0 {
                    r matches Err(e) && (e matches CheckError::EmptyResult(c) && c@ == dec_digits(
                        self.id as nat,
                    ))
                } else {
                    r matches Ok(s) && s@ == list[0]
                }
            }),
            r matches Ok(s) ==> s@.len() > 0,
    {
        if data.id != self.id {
            return Err(CheckError::Mismatch);
        }
        let list = if self.stable_only {
            &data.stable_versions
        } else {
            &data.versions
        };
        if list.len() == 0 {
            return Err(CheckError::EmptyResult(usize_to_string(self.id)));
        }
        let first = list[0].clone();
        if first.as_str().unicode_len() == 0 {
            return Err(CheckError::EmptyResult(usize_to_string(self.id)));
        }
        Ok(first)
    }
}

} // verus!
