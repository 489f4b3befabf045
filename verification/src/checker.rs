//! The six resolution strategies and their dispatch.

pub mod anitya;
pub mod git;
pub mod github;
pub mod gitlab;
pub mod gitweb;
pub mod html;

use vstd::prelude::*;
use vstd::string::StringExecFns;

use crate::config::Config;
use crate::errors::CheckError;
use crate::errors::ConfigError;

use self::anitya::AnityaChecker;
use self::git::GitChecker;
use self::github::GitHubChecker;
use self::gitlab::GitLabChecker;
use self::gitweb::GitWebChecker;
use self::html::HTMLChecker;

verus! {

/// One configured resolution strategy, ready to describe its exchanges
/// and judge their responses.
pub enum Strategy {
    Anitya(AnityaChecker),
    GitHub(GitHubChecker),
    GitLab(GitLabChecker),
    GitWeb(GitWebChecker),
    Git(GitChecker),
    Html(HTMLChecker),
}

/// Whether `t` names one of the six strategies.
pub open spec fn known_backend(t: Seq<char>) -> bool {
    t == "anitya"@ || t == "github"@ || t == "gitlab"@ || t == "gitweb"@ || t == "git"@ || t
        == "html"@
}

/// The six discriminators are pairwise distinct character sequences.
proof fn backend_literals_distinct()
    ensures
        "anitya"@ != "github"@ && "anitya"@ != "gitlab"@ && "anitya"@ != "gitweb"@ && "anitya"@
            != "git"@ && "anitya"@ != "html"@,
        "github"@ != "gitlab"@ && "github"@ != "gitweb"@ && "github"@ != "git"@ && "github"@
            != "html"@,
        "gitlab"@ != "gitweb"@ && "gitlab"@ != "git"@ && "gitlab"@ != "html"@,
        "gitweb"@ != "git"@ && "gitweb"@ != "html"@,
        "git"@ != "html"@,
{
    reveal_strlit("anitya");
    reveal_strlit("github");
    reveal_strlit("gitlab");
    reveal_strlit("gitweb");
    reveal_strlit("git");
    reveal_strlit("html");
    assert("anitya"@.len() == 6 && "github"@.len() == 6 && "gitlab"@.len() == 6 && "gitweb"@.len()
        == 6 && "git"@.len() == 3 && "html"@.len() == 4);
    assert("anitya"@[0] == 'a' && "github"@[0] == 'g' && "gitlab"@[0] == 'g' && "gitweb"@[0] == 'g'
        && "html"@[0] == 'h');
    assert("github"@[3] == 'h' && "gitlab"@[3] == 'l' && "gitweb"@[3] == 'w');
}

/// Pick the strategy the `type` key names and build it from the
/// configuration.  A missing `type` key and an unknown discriminator are
/// refused; a construction failure of the picked strategy comes through
/// unchanged.
pub fn dispatch(config: &Config) -> (r: Result<Strategy, CheckError>)
    ensures
        config.spec_get("type"@) is None ==> (r matches Err(e) && (e matches CheckError::Config(
            ConfigError::MissingField(f, _),
        ) && f@ == "type"@)),
        config.spec_get("type"@) matches Some(t) ==> {
            &&& t == "anitya"@ ==> (if AnityaChecker::new_ok(config) {
                r matches Ok(s) && (s matches Strategy::Anitya(c) && c.matches_config(config))
            } else {
                r matches Err(e) && AnityaChecker::new_err(config, e)
            })
            &&& t == "github"@ ==> (if GitHubChecker::new_ok(config) {
                r matches Ok(s) && (s matches Strategy::GitHub(c) && c.matches_config(config))
            } else {
                r matches Err(e) && GitHubChecker::new_err(config, e)
            })
            &&& t == "gitlab"@ ==> (if GitLabChecker::new_ok(config) {
                r matches Ok(s) && (s matches Strategy::GitLab(c) && c.matches_config(config))
            } else {
                r matches Err(e) && GitLabChecker::new_err(config, e)
            })
            &&& t == "gitweb"@ ==> (if GitWebChecker::new_ok(config) {
                r matches Ok(s) && (s matches Strategy::GitWeb(c) && c.matches_config(config))
            } else {
                r matches Err(e) && GitWebChecker::new_err(config, e)
            })
            &&& t == "git"@ ==> (if GitChecker::new_ok(config) {
                r matches Ok(s) && (s matches Strategy::Git(c) && c.matches_config(config))
            } else {
                r matches Err(e) && GitChecker::new_err(config, e)
            })
            &&& t == "html"@ ==> (if HTMLChecker::new_ok(config) {
                r matches Ok(s) && (s matches Strategy::Html(c) && c.matches_config(config))
            } else {
                r matches Err(e) && HTMLChecker::new_err(config, e)
            })
            &&& !known_backend(t) ==> (r matches Err(e) && (e matches CheckError::Config(
                ConfigError::UnknownBackend(u),
            ) && u@ == t))
        },
{
    proof {
        backend_literals_distinct();
    }
    let ty = match config.get("type") {
        Some(t) => t,
        None => {
            return Err(CheckError::Config(ConfigError::MissingField(
                String::from_str("type"),
                String::from_str("Upstream type"),
            )));
        },
    };
    if ty == String::from_str("anitya") {
        match AnityaChecker::new(config) {
            Ok(c) => Ok(Strategy::Anitya(c)),
            Err(e) => Err(e),
        }
    } else if ty == String::from_str("github") {
        match GitHubChecker::new(config) {
            Ok(c) => Ok(Strategy::GitHub(c)),
            Err(e) => Err(e),
        }
    } else if ty == String::from_str("gitlab") {
        match GitLabChecker::new(config) {
            Ok(c) => Ok(Strategy::GitLab(c)),
            Err(e) => Err(e),
        }
    } else if ty == String::from_str("gitweb") {
        match GitWebChecker::new(config) {
            Ok(c) => Ok(Strategy::GitWeb(c)),
            Err(e) => Err(e),
        }
    } else if ty == String::from_str("git") {
        match GitChecker::new(config) {
            Ok(c) => Ok(Strategy::Git(c)),
            Err(e) => Err(e),
        }
    } else if ty == String::from_str("html") {
        match HTMLChecker::new(config) {
            Ok(c) => Ok(Strategy::Html(c)),
            Err(e) => Err(e),
        }
    } else {
        Err(CheckError::Config(ConfigError::UnknownBackend(ty)))
    }
}

} // verus!
