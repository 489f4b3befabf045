//! Tests of the update assessment, descriptor rewriting and package-list
//! expansion.

use findupdate::config::Config;
use findupdate::errors::{CheckError, ConfigError};
use findupdate::pkglist::{expand_package_list, group_depth_ok, ListEntry};
use findupdate::update::{
    assess_update, find_vcs_marker, pick_current_version, update_version_content, validate_urls,
    UpdateWarning,
};

fn config_of(pairs: &[(&str, &str)]) -> Config {
    let mut config = Config::new();
    for (k, v) in pairs {
        config.insert(k.to_string(), v.to_string());
    }
    config
}

#[test]
fn test_pick_current_version() {
    let desc = config_of(&[("VER", " 1.0 "), ("UPSTREAM_VER", "2.0")]);
    assert_eq!(
        pick_current_version(&desc).unwrap(),
        ("2.0".to_string(), true)
    );
    let desc = config_of(&[("VER", " 1.0 ")]);
    assert_eq!(
        pick_current_version(&desc).unwrap(),
        ("1.0".to_string(), false)
    );
    let desc = config_of(&[("SRCS", "x")]);
    assert!(matches!(
        pick_current_version(&desc),
        Err(CheckError::Config(ConfigError::MissingField(f, _))) if f == "VER"
    ));
}

#[test]
fn test_assess_update_normalises() {
    // trimmed, and one leading v stripped
    let (after, warnings) = assess_update("1.0", " v1.1 ", false);
    assert_eq!(after, "1.1");
    assert!(warnings.is_empty());
}

#[test]
fn test_assess_update_downgrade() {
    let (after, warnings) = assess_update("2.0", "1.0", false);
    assert_eq!(after, "1.0");
    assert_eq!(
        warnings,
        vec![UpdateWarning::PossibleDowngrade(
            "2.0".to_string(),
            "1.0".to_string()
        )]
    );
}

#[test]
fn test_assess_update_compound_and_snapshot() {
    let (after, warnings) = assess_update("1.0+git20230101", "1.1", false);
    assert_eq!(after, "1.1");
    assert_eq!(
        warnings,
        vec![
            UpdateWarning::CompoundVersion("1.0+git20230101".to_string()),
            UpdateWarning::SnapshotVersion("+git".to_string()),
        ]
    );
}

#[test]
fn test_assess_update_compliance() {
    let (after, warnings) = assess_update("1.0", "2023-07-18", true);
    assert_eq!(after, "2023.07.18");
    assert_eq!(
        warnings,
        vec![UpdateWarning::ComplianceApplied("2023-07-18".to_string())]
    );
}

#[test]
fn test_assess_update_no_change() {
    // an unchanged version raises no compound or downgrade remarks
    let (after, warnings) = assess_update("1.0+x", "1.0+x", false);
    assert_eq!(after, "1.0+x");
    assert!(warnings.is_empty());
}

#[test]
fn test_find_vcs_marker() {
    assert_eq!(find_vcs_marker("1.0+git20230101"), Some("+git".to_string()));
    assert_eq!(find_vcs_marker("1.0+svn3"), Some("+svn".to_string()));
    assert_eq!(find_vcs_marker("1.0+3"), None);
}

#[test]
fn test_update_version_content() {
    let content = "VER=1.0\nREL=2\nSRCS=https://example.org/pkg-1.0.tar\n";
    let rewritten = update_version_content(content, "1.1", false);
    assert_eq!(rewritten, "VER=1.1\nSRCS=https://example.org/pkg-1.0.tar\n");
    let content = "UPSTREAM_VER=1.0\n";
    assert_eq!(
        update_version_content(content, "1.1", true),
        "UPSTREAM_VER=1.1\n"
    );
}

#[test]
fn test_validate_urls() {
    let before = config_of(&[("SRCS", "tbl::https://a.example/pkg-1.0.tar x")]);
    let same = config_of(&[("SRCS", "tbl::https://a.example/pkg-1.0.tar y")]);
    assert!(validate_urls(&before, &same));
    let changed = config_of(&[("SRCS", "tbl2::https://a.example/pkg-1.1.tar y")]);
    assert!(!validate_urls(&before, &changed));
    let unrelated = config_of(&[("VER", "tbl::https://a.example/pkg-1.0.tar x")]);
    assert!(!validate_urls(&unrelated, &same));
}

#[test]
fn test_expand_package_list() {
    let lines = vec![
        "# a comment".to_string(),
        "  foo  ".to_string(),
        "groups/extra".to_string(),
        "".to_string(),
    ];
    let entries = expand_package_list(&lines);
    assert_eq!(
        entries,
        vec![
            ListEntry::Package("foo".to_string()),
            ListEntry::Group("groups/extra".to_string()),
            ListEntry::Package("".to_string()),
        ]
    );
    assert!(group_depth_ok(32));
    assert!(!group_depth_ok(33));
}
