//! Tests of the six strategies, their dispatch, and the extraction and
//! selection policies they share.

use findupdate::checker::anitya::{AnityaChecker, AnityaData};
use findupdate::checker::git::GitChecker;
use findupdate::checker::github::GitHubChecker;
use findupdate::checker::gitlab::GitLabChecker;
use findupdate::checker::gitweb::GitWebChecker;
use findupdate::checker::html::HTMLChecker;
use findupdate::checker::{dispatch, Strategy};
use findupdate::config::Config;
use findupdate::errors::{CheckError, ConfigError, FetchError, ProtocolError};
use findupdate::extract::extract_versions;
use findupdate::net::{body_size_check, status_check, HttpMethod};

fn config_of(pairs: &[(&str, &str)]) -> Config {
    let mut config = Config::new();
    for (k, v) in pairs {
        config.insert(k.to_string(), v.to_string());
    }
    config
}

#[test]
fn test_dispatch() {
    let c = config_of(&[("type", "git"), ("url", "https://example.org/x.git")]);
    assert!(matches!(dispatch(&c), Ok(Strategy::Git(_))));
    let c = config_of(&[("type", "teleport")]);
    assert!(matches!(
        dispatch(&c),
        Err(CheckError::Config(ConfigError::UnknownBackend(u))) if u == "teleport"
    ));
    let c = config_of(&[("url", "https://example.org")]);
    assert!(matches!(
        dispatch(&c),
        Err(CheckError::Config(ConfigError::MissingField(f, _))) if f == "type"
    ));
    let c = config_of(&[("type", "git")]);
    assert!(matches!(
        dispatch(&c),
        Err(CheckError::Config(ConfigError::MissingField(f, _))) if f == "url"
    ));
}

#[test]
fn test_extract_versions_modes() {
    let items = vec!["av1b".to_string(), "v2".to_string(), "none".to_string()];
    // one capture group: the group's text comes back, not the whole item
    let captured = extract_versions("v(\\d+)", &items).unwrap();
    assert_eq!(captured, vec!["1".to_string(), "2".to_string()]);
    // no capture group: matching items come back whole and unmodified
    let kept = extract_versions("v\\d+", &items).unwrap();
    assert_eq!(kept, vec!["av1b".to_string(), "v2".to_string()]);
    // a broken pattern is refused
    assert!(matches!(
        extract_versions("(", &items),
        Err(CheckError::Config(ConfigError::InvalidPattern(p))) if p == "("
    ));
}

#[test]
fn test_anitya() {
    let c = config_of(&[("id", "1832")]);
    let checker = AnityaChecker::new(&c).unwrap();
    assert_eq!(checker.id, 1832);
    assert!(checker.stable_only);
    let req = checker.request();
    assert_eq!(req.url, "https://release-monitoring.org/api/project/1832/");
    assert_eq!(req.method, HttpMethod::Get);

    let data = AnityaData {
        id: 1832,
        stable_versions: vec!["1.2".to_string(), "1.1".to_string()],
        versions: vec!["1.3-rc1".to_string()],
    };
    assert_eq!(checker.resolve(&data).unwrap(), "1.2");
    // a mismatched project id is a serving anomaly
    let wrong = AnityaData { id: 1, stable_versions: vec![], versions: vec![] };
    assert!(matches!(checker.resolve(&wrong), Err(CheckError::Mismatch)));
    // stable_only=false reads the other list
    let c = config_of(&[("id", "1832"), ("stable_only", "false")]);
    let unstable = AnityaChecker::new(&c).unwrap();
    assert_eq!(unstable.resolve(&data).unwrap(), "1.3-rc1");
    // an empty list is an empty result
    let empty = AnityaData { id: 1832, stable_versions: vec![], versions: vec![] };
    assert!(matches!(checker.resolve(&empty), Err(CheckError::EmptyResult(_))));
    // a malformed id is refused at construction
    let c = config_of(&[("id", "abc")]);
    assert!(matches!(
        AnityaChecker::new(&c),
        Err(CheckError::Config(ConfigError::InvalidField(f))) if f == "id"
    ));
    // so is one too large for the machine word
    let c = config_of(&[("id", "99999999999999999999999999")]);
    assert!(matches!(
        AnityaChecker::new(&c),
        Err(CheckError::Config(ConfigError::InvalidField(_)))
    ));
    // a leading plus sign is tolerated, as numeric parsing usually does
    let c = config_of(&[("id", "+7")]);
    assert_eq!(AnityaChecker::new(&c).unwrap().id, 7);
}

#[test]
fn test_git_branch_scenario() {
    // a configured branch returns its id verbatim and ignores the tags
    let c = config_of(&[("url", "https://example.org/x.git"), ("branch", "master")]);
    let checker = GitChecker::new(&c).unwrap();
    let body = b"001e# service=git-upload-pack\n\
68e3802b238b964900acac9422a70e295482243f refs/heads/master\n\
aaaa0001 refs/tags/v99.0\n\
0000";
    assert_eq!(
        checker.resolve(&body[..]).unwrap(),
        "68e3802b238b964900acac9422a70e295482243f"
    );
    // a branch that is not advertised is an empty result
    let c = config_of(&[("url", "https://example.org/x.git"), ("branch", "devel")]);
    let absent = GitChecker::new(&c).unwrap();
    assert!(matches!(
        absent.resolve(&body[..]),
        Err(CheckError::EmptyResult(u)) if u == "https://example.org/x.git"
    ));
}

#[test]
fn test_git_tags_selection() {
    let c = config_of(&[("url", "https://example.org/x.git")]);
    let checker = GitChecker::new(&c).unwrap();
    let body = b"aaaa0001 refs/tags/1.9\n\
aaaa0002 refs/tags/1.10\n\
aaaa0003 refs/tags/1.10^{}\n\
aaaa0004 refs/heads/master\n";
    assert_eq!(checker.resolve(&body[..]).unwrap(), "1.10");
    // a corrupt advertisement is a hard failure
    assert!(matches!(
        checker.resolve(&b"!!"[..]),
        Err(CheckError::Protocol(ProtocolError::MalformedPktLine))
    ));
    let req = checker.request();
    assert_eq!(
        req.url,
        "https://example.org/x.git/info/refs?service=git-upload-pack"
    );
    assert_eq!(
        req.headers,
        vec![
            ("User-Agent".to_string(), "git/2.31.1".to_string()),
            ("git-protocol".to_string(), "version=2".to_string()),
        ]
    );
}

#[test]
fn test_gitlab_scenario() {
    // the documented end-to-end case: filter out `beta`, then sort
    let c = config_of(&[
        ("repo", "x"),
        ("pattern", "^v[0-9.]+$"),
        ("sort_version", "true"),
    ]);
    let checker = GitLabChecker::new(&c).unwrap();
    let tags = vec!["v1.0".to_string(), "beta".to_string(), "v2.0".to_string()];
    assert_eq!(checker.resolve(&tags).unwrap(), "v2.0");
    // without sorting the first surviving tag wins
    let c = config_of(&[("repo", "x"), ("pattern", "^v[0-9.]+$")]);
    let unsorted = GitLabChecker::new(&c).unwrap();
    assert_eq!(unsorted.resolve(&tags).unwrap(), "v1.0");
}

#[test]
fn test_gitlab_request_percent_encodes() {
    let c = config_of(&[
        ("repo", "GNOME/fractal"),
        ("instance", "https://gitlab.gnome.org"),
    ]);
    let checker = GitLabChecker::new(&c).unwrap();
    let req = checker.request();
    assert_eq!(
        req.url,
        "https://gitlab.gnome.org/api/v4/projects/GNOME%2Ffractal/repository/tags"
    );
    // a non-2xx answer must fail the check
    assert!(req.check_status);
    // the default instance is the public one
    let c = config_of(&[("repo", "a/b")]);
    let public = GitLabChecker::new(&c).unwrap();
    assert_eq!(
        public.request().url,
        "https://gitlab.com/api/v4/projects/a%2Fb/repository/tags"
    );
}

#[test]
fn test_github_requests() {
    // no credential, no request
    let c = config_of(&[("repo", "AOSC-Dev/ciel-rs")]);
    let bare = GitHubChecker::new(&c).unwrap();
    assert!(matches!(
        bare.request(),
        Err(CheckError::Config(ConfigError::MissingCredential))
    ));
    // the branch path asks the commits endpoint
    let c = config_of(&[
        ("repo", "AOSC-Dev/ciel-rs"),
        ("branch", "master"),
        ("github_token", "abc123"),
    ]);
    let by_branch = GitHubChecker::new(&c).unwrap();
    let req = by_branch.request().unwrap();
    assert_eq!(req.method, HttpMethod::Get);
    assert_eq!(
        req.url,
        "https://api.github.com/repos/AOSC-Dev/ciel-rs/commits?per_page=1&sha=master"
    );
    assert_eq!(req.headers[1].0, "Authorization");
    assert_eq!(req.headers[1].1, "token abc123");
    // the tag path posts a query document
    let c = config_of(&[("repo", "AOSC-Dev/ciel-rs"), ("github_token", "abc123")]);
    let by_tags = GitHubChecker::new(&c).unwrap();
    let req = by_tags.request().unwrap();
    assert_eq!(req.method, HttpMethod::Post);
    assert_eq!(req.url, "https://api.github.com/graphql");
    let body = req.body.unwrap();
    assert!(body.contains("owner: \"AOSC-Dev\""));
    assert!(body.contains("name: \"ciel-rs\""));
    assert!(body.contains("refPrefix: \"refs/tags/\""));
    // a slug without a slash cannot be used
    let c = config_of(&[("repo", "justaname"), ("github_token", "abc123")]);
    let broken = GitHubChecker::new(&c).unwrap();
    assert!(matches!(
        broken.request(),
        Err(CheckError::Config(ConfigError::InvalidField(f))) if f == "repo"
    ));
}

#[test]
fn test_github_resolutions() {
    let c = config_of(&[("repo", "a/b"), ("sort_version", "true")]);
    let checker = GitHubChecker::new(&c).unwrap();
    let tags = vec!["0.9".to_string(), "0.10".to_string()];
    assert_eq!(checker.resolve_tags(&tags).unwrap(), "0.10");
    assert_eq!(
        checker
            .resolve_commits(&vec!["abc123".to_string(), "def456".to_string()])
            .unwrap(),
        "abc123"
    );
    assert!(matches!(
        checker.resolve_commits(&vec![]),
        Err(CheckError::EmptyResult(_))
    ));
}

#[test]
fn test_gitweb_selection() {
    // exactly one candidate comes back unchanged, whatever the settings
    let c = config_of(&[("url", "https://example.org/p.git")]);
    let checker = GitWebChecker::new(&c).unwrap();
    let single = vec!["0ad".to_string()];
    assert_eq!(checker.select_from_names(&single).unwrap(), "0ad");
    // several candidates: the comparator's highest wins
    let many = vec!["1.2".to_string(), "1.10".to_string(), "1.9".to_string()];
    assert_eq!(checker.select_from_names(&many).unwrap(), "1.10");
    // none is an empty result
    assert!(matches!(
        checker.select_from_names(&vec![]),
        Err(CheckError::EmptyResult(_))
    ));
    let req = checker.request();
    assert_eq!(req.url, "https://example.org/p.git/tags");
    assert_eq!(req.max_body, Some(10 * 1024 * 1024));
    // a non-2xx answer must fail the check
    assert!(req.check_status);
}

#[test]
fn test_gitweb_resolve_reads_name_class() {
    let c = config_of(&[("url", "https://example.org/p.git")]);
    let checker = GitWebChecker::new(&c).unwrap();
    let body = "<html><body>\
<a class=\"name\">1.0</a><span class=\"age\">now</span><a class=\"name\">2.0</a>\
</body></html>";
    assert_eq!(checker.resolve(body).unwrap(), "2.0");
}

#[test]
fn test_html_resolution() {
    let c = config_of(&[("url", "https://example.org/dl"), ("pattern", "v([0-9.]+)")]);
    let checker = HTMLChecker::new(&c).unwrap();
    // the captured group is the candidate, and the highest wins
    assert_eq!(checker.resolve("v1.2 v1.10 v1.9").unwrap(), "1.10");
    // no match at all is an empty result
    assert!(matches!(
        checker.resolve("nothing here"),
        Err(CheckError::EmptyResult(u)) if u == "https://example.org/dl"
    ));
    // a pattern without a capture group cannot extract
    let c = config_of(&[("url", "https://example.org/dl"), ("pattern", "v[0-9.]+")]);
    let plain = HTMLChecker::new(&c).unwrap();
    assert!(matches!(
        plain.resolve("v1.2"),
        Err(CheckError::Config(ConfigError::InvalidPattern(_)))
    ));
    // both keys are required
    let c = config_of(&[("url", "https://example.org/dl")]);
    assert!(matches!(
        HTMLChecker::new(&c),
        Err(CheckError::Config(ConfigError::MissingField(f, _))) if f == "pattern"
    ));
}

#[test]
fn test_empty_version_rejected() {
    // a successful check never hands back an empty string: an empty
    // winner counts as an empty result on every path
    let c = config_of(&[("id", "1")]);
    let anitya = AnityaChecker::new(&c).unwrap();
    let data = AnityaData {
        id: 1,
        stable_versions: vec!["".to_string()],
        versions: vec![],
    };
    assert!(matches!(anitya.resolve(&data), Err(CheckError::EmptyResult(_))));

    // the first-entry path without version sorting
    let c = config_of(&[("repo", "x")]);
    let gitlab = GitLabChecker::new(&c).unwrap();
    let names = vec!["".to_string(), "v1".to_string()];
    assert!(matches!(gitlab.resolve(&names), Err(CheckError::EmptyResult(_))));

    // an empty commit id on the branch path
    let c = config_of(&[("repo", "a/b")]);
    let github = GitHubChecker::new(&c).unwrap();
    assert!(matches!(
        github.resolve_commits(&vec!["".to_string()]),
        Err(CheckError::EmptyResult(_))
    ));

    // a tag advertised as exactly `refs/tags/` has an empty short name
    let c = config_of(&[("url", "https://example.org/x.git")]);
    let git = GitChecker::new(&c).unwrap();
    let body = b"aaaa0001 refs/tags/\n";
    assert!(matches!(git.resolve(&body[..]), Err(CheckError::EmptyResult(_))));

    // a capture group that matches the empty string
    let c = config_of(&[("url", "https://example.org/dl"), ("pattern", "x([0-9]*)")]);
    let html = HTMLChecker::new(&c).unwrap();
    assert!(matches!(html.resolve("x"), Err(CheckError::EmptyResult(_))));

    // a single empty listed name
    let c = config_of(&[("url", "https://example.org/p.git")]);
    let gitweb = GitWebChecker::new(&c).unwrap();
    assert!(matches!(
        gitweb.select_from_names(&vec!["".to_string()]),
        Err(CheckError::EmptyResult(_))
    ));
}

#[test]
fn test_response_checks() {
    assert!(status_check(200).is_ok());
    assert!(status_check(299).is_ok());
    assert!(matches!(
        status_check(404),
        Err(CheckError::Fetch(FetchError::HttpStatus(404)))
    ));
    assert!(matches!(
        status_check(301),
        Err(CheckError::Fetch(FetchError::HttpStatus(301)))
    ));
    assert!(body_size_check(None).is_ok());
    assert!(body_size_check(Some(10 * 1024 * 1024)).is_ok());
    assert!(matches!(
        body_size_check(Some(10 * 1024 * 1024 + 1)),
        Err(CheckError::Fetch(FetchError::BodyTooLarge))
    ));
}
